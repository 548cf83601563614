//! The decisions of the rate limiter around its token buckets: the
//! whitelist of trusted identities, the violation counters, and the
//! response that a check yields. The buckets themselves refill by elapsed
//! wall-clock time in fractional tokens and live with the caller.
use vstd::prelude::*;
use vstd::string::StringExecFns;

use crate::table::{Keyed, Table};

verus! {

/// Whether a request may proceed.
#[derive(Clone, Copy, Debug, Eq, PartialEq, Structural)]
pub enum Decision {
    /// The request is allowed.
    Allow,
    /// Too many requests.
    Deny,
}

/// Rate-limit headers of the HTTP response.
#[derive(Clone, Copy, Debug, Eq, PartialEq, Structural)]
pub struct RateLimitHeaders {
    /// Requests allowed in the window (the bucket's capacity).
    pub x_ratelimit_limit: u32,
    /// Whole tokens left.
    pub x_ratelimit_remaining: u32,
    /// Seconds until a request will be accepted; set on `Deny` only.
    pub retry_after_secs: Option<u64>,
}

/// The outcome of a check.
#[derive(Clone, Copy, Debug, Eq, PartialEq, Structural)]
pub struct RateLimitResult {
    pub decision: Decision,
    pub headers: RateLimitHeaders,
}

/// Why a whitelist change was refused.
#[derive(Clone, Copy, Debug, Eq, PartialEq, Structural)]
pub enum RateLimitError {
    AlreadyWhitelisted,
    NotWhitelisted,
}

/// The message of an error.
pub open spec fn rate_limit_message(e: RateLimitError) -> Seq<char> {
    match e {
        RateLimitError::AlreadyWhitelisted => "Identity is already whitelisted"@,
        RateLimitError::NotWhitelisted => "Identity is not whitelisted"@,
    }
}

impl RateLimitError {
    /// The error's message.
    pub fn to_string(&self) -> (r: String)
        ensures
            r@ == rate_limit_message(*self),
    {
        match self {
            RateLimitError::AlreadyWhitelisted => String::from_str("Identity is already whitelisted"),
            RateLimitError::NotWhitelisted => String::from_str("Identity is not whitelisted"),
        }
    }
}

/// A named counter.
#[derive(Clone, Debug)]
pub struct Counter {
    pub key: String,
    pub count: u64,
}

impl Keyed for Counter {
    type K = str;

    open spec fn key_view(&self) -> Seq<char> {
        self.key@
    }

    fn key_str(&self) -> (r: &str) {
        self.key.as_str()
    }

    fn same_key(a: &str, b: &str) -> (r: bool) {
        crate::table::str_eq(a, b)
    }
}

/// Counts by name; a name never counted reads as absent.
pub struct Counters {
    table: Table<Counter>,
}

/// The count of `key` in `m`, 0 when absent.
pub open spec fn count_of(m: Map<Seq<char>, u64>, key: Seq<char>) -> u64 {
    if m.dom().contains(key) { m[key] } else { 0 }
}

impl Counters {
    pub closed spec fn wf(&self) -> bool {
        self.table.wf()
    }

    /// Name to count.
    pub closed spec fn view(&self) -> Map<Seq<char>, u64> {
        self.table@.map_values(|c: Counter| c.count)
    }

    /// No counts.
    pub fn new() -> (c: Self)
        ensures
            c.wf(),
            c@ == Map::<Seq<char>, u64>::empty(),
    {
        let c = Counters { table: Table::new() };
        assert(c@ =~= Map::<Seq<char>, u64>::empty());
        c
    }

    /// The count of `key`, if it was ever counted.
    pub fn get(&self, key: &str) -> (r: Option<u64>)
        requires
            self.wf(),
        ensures
            r == (if self@.dom().contains(key@) { Some(self@[key@]) } else { None::<u64> }),
    {
        match self.table.get(key) {
            Some(c) => Some(c.count),
            None => None,
        }
    }

    /// Adds one to the count of `key`.
    pub fn increment(&mut self, key: &str)
        requires
            old(self).wf(),
            count_of(old(self)@, key@) < u64::MAX,
        ensures
            final(self).wf(),
            final(self)@ == old(self)@.insert(key@, (count_of(old(self)@, key@) + 1) as u64),
    {
        let n = match self.table.get(key) {
            Some(c) => c.count,
            None => 0,
        };
        self.table.upsert(Counter { key: String::from_str(key), count: n + 1 });
        assert(self@ =~= old(self)@.insert(key@, (count_of(old(self)@, key@) + 1) as u64));
    }
}

/// Denied requests, by identity and by endpoint.
pub struct ViolationStats {
    pub by_identity: Counters,
    pub by_endpoint: Counters,
}

impl ViolationStats {
    pub open spec fn wf(&self) -> bool {
        self.by_identity.wf() && self.by_endpoint.wf()
    }

    /// No violations.
    pub fn new() -> (s: Self)
        ensures
            s.wf(),
            s.by_identity@ == Map::<Seq<char>, u64>::empty(),
            s.by_endpoint@ == Map::<Seq<char>, u64>::empty(),
    {
        ViolationStats { by_identity: Counters::new(), by_endpoint: Counters::new() }
    }
}

/// Identity record of the whitelist.
#[derive(Clone, Debug)]
pub struct Trusted {
    pub identity: String,
}

impl Keyed for Trusted {
    type K = str;

    open spec fn key_view(&self) -> Seq<char> {
        self.identity@
    }

    fn key_str(&self) -> (r: &str) {
        self.identity.as_str()
    }

    fn same_key(a: &str, b: &str) -> (r: bool) {
        crate::table::str_eq(a, b)
    }
}

/// The policy set for one endpoint.
#[derive(Clone, Debug)]
pub struct EndpointPolicy<P> {
    pub endpoint: String,
    pub policy: P,
}

impl<P> Keyed for EndpointPolicy<P> {
    type K = str;

    open spec fn key_view(&self) -> Seq<char> {
        self.endpoint@
    }

    fn key_str(&self) -> (r: &str) {
        self.endpoint.as_str()
    }

    fn same_key(a: &str, b: &str) -> (r: bool) {
        crate::table::str_eq(a, b)
    }
}

/// Policies by endpoint, with a default for the endpoints that have none.
#[derive(Debug)]
pub struct EndpointPolicies<P> {
    table: Table<EndpointPolicy<P>>,
    default: P,
}

impl<P> EndpointPolicies<P> {
    #[verifier::type_invariant]
    spec fn inv(self) -> bool {
        self.table.wf()
    }

    /// The policies set, by endpoint.
    pub closed spec fn view(&self) -> Map<Seq<char>, P> {
        self.table@.map_values(|e: EndpointPolicy<P>| e.policy)
    }

    /// The policy of the endpoints that have none set.
    pub closed spec fn fallback(&self) -> P {
        self.default
    }

    /// No endpoint policies; `default` for every endpoint.
    pub fn new(default: P) -> (r: Self)
        ensures
            r@ == Map::<Seq<char>, P>::empty(),
            r.fallback() == default,
    {
        let r = EndpointPolicies { table: Table::new(), default };
        assert(r@ =~= Map::<Seq<char>, P>::empty());
        r
    }

    /// Sets the policy of `endpoint`, replacing the one set before.
    pub fn set(&mut self, endpoint: String, policy: P)
        ensures
            final(self)@ == old(self)@.insert(endpoint@, policy),
            final(self).fallback() == old(self).fallback(),
    {
        proof {
            use_type_invariant(&*self);
        }
        let ghost k = endpoint@;
        let mut table = Table::new();
        std::mem::swap(&mut table, &mut self.table);
        table.upsert(EndpointPolicy { endpoint, policy });
        self.table = table;
        assert(self@ =~= old(self)@.insert(k, policy));
    }

    /// The policy that applies to `endpoint`: the one set for it, else the
    /// default.
    pub fn policy(&self, endpoint: &str) -> (r: &P)
        ensures
            *r == if self@.dom().contains(endpoint@) {
                self@[endpoint@]
            } else {
                self.fallback()
            },
    {
        proof {
            use_type_invariant(self);
        }
        match self.table.get(endpoint) {
            Some(e) => &e.policy,
            None => &self.default,
        }
    }
}

impl<P: Clone> Clone for EndpointPolicies<P> {
    /// A copy with the same endpoints, each policy and the default cloned.
    fn clone(&self) -> (r: Self)
        ensures
            r@.dom() == self@.dom(),
    {
        let mut table: Table<EndpointPolicy<P>> = Table::new();
        let n = self.table.len();
        let mut i: usize = 0;
        while i < n
            invariant
                n == self.table.entries().len(),
                i <= n,
                table.wf(),
                table@.dom() == Set::new(
                    |k: Seq<char>|
                        exists|j: int| 0 <= j < i && #[trigger] self.table.entries()[j].endpoint@ == k,
                ),
            decreases n - i,
        {
            let e = self.table.at(i);
            let copy = EndpointPolicy { endpoint: e.endpoint.clone(), policy: e.policy.clone() };
            table.upsert(copy);
            assert(table@.dom() =~= Set::new(
                |k: Seq<char>|
                    exists|j: int| 0 <= j < i + 1 && #[trigger] self.table.entries()[j].endpoint@ == k,
            )) by {
                assert(self.table.entries()[i as int].endpoint@ == copy.endpoint@);
            }
            i = i + 1;
        }
        proof {
            use_type_invariant(self);
            self.table.lemma_view();
            assert forall|k: Seq<char>| #[trigger] self@.dom().contains(k) <==> table@.dom().contains(
                k,
            ) by {
                if self@.dom().contains(k) {
                    assert(self.table@.dom().contains(k));
                    let j = choose|j: int|
                        0 <= j < self.table.entries().len() && self.table.entries()[j].key_view()
                            == k;
                    assert(self.table.entries()[j].endpoint@ == k);
                }
                if table@.dom().contains(k) {
                    let j = choose|j: int|
                        0 <= j < n && #[trigger] self.table.entries()[j].endpoint@ == k;
                    assert(self.table@.dom().contains(self.table.entries()[j].key_view()));
                }
            }
            assert(table@.dom() =~= self@.dom());
        }
        EndpointPolicies { table, default: self.default.clone() }
    }
}

/// The limiter's state outside its buckets: trusted identities, which
/// bypass the limits, and the violation counters.
pub struct RateLimiterState {
    whitelist: Table<Trusted>,
    pub violations: ViolationStats,
}

/// The response to a whitelisted identity: allowed, with the full capacity
/// left.
pub open spec fn whitelisted_result(capacity: u32) -> RateLimitResult {
    RateLimitResult {
        decision: Decision::Allow,
        headers: RateLimitHeaders {
            x_ratelimit_limit: capacity,
            x_ratelimit_remaining: capacity,
            retry_after_secs: None,
        },
    }
}

/// The response after the bucket was asked for a token.
pub open spec fn bucket_result(capacity: u32, allowed: bool, remaining: u32, retry_after: u64) -> RateLimitResult {
    RateLimitResult {
        decision: if allowed { Decision::Allow } else { Decision::Deny },
        headers: RateLimitHeaders {
            x_ratelimit_limit: capacity,
            x_ratelimit_remaining: remaining,
            retry_after_secs: if allowed { None } else { Some(retry_after) },
        },
    }
}

impl RateLimiterState {
    pub closed spec fn wf(&self) -> bool {
        self.whitelist.wf() && self.violations.wf()
    }

    /// The violation counters.
    pub closed spec fn stats(&self) -> ViolationStats {
        self.violations
    }

    /// The trusted identities.
    pub closed spec fn trusted(&self) -> Set<Seq<char>> {
        self.whitelist@.dom()
    }

    /// Nobody trusted, nothing denied.
    pub fn new() -> (s: Self)
        ensures
            s.wf(),
            s.trusted() == Set::<Seq<char>>::empty(),
            s.stats().by_identity@ == Map::<Seq<char>, u64>::empty(),
            s.stats().by_endpoint@ == Map::<Seq<char>, u64>::empty(),
    {
        let s = RateLimiterState { whitelist: Table::new(), violations: ViolationStats::new() };
        assert(s.trusted() =~= Set::<Seq<char>>::empty());
        s
    }

    /// Trusts `identity`; refused if it is trusted already.
    pub fn add_to_whitelist(&mut self, identity: &str) -> (r: Result<(), RateLimitError>)
        requires
            old(self).wf(),
        ensures
            final(self).wf(),
            final(self).stats() == old(self).stats(),
            old(self).trusted().contains(identity@) ==> r == Err::<(), RateLimitError>(
                RateLimitError::AlreadyWhitelisted,
            ) && final(self).trusted() == old(self).trusted(),
            !old(self).trusted().contains(identity@) ==> r is Ok && final(self).trusted() == old(
                self,
            ).trusted().insert(identity@),
    {
        if self.whitelist.contains(identity) {
            return Err(RateLimitError::AlreadyWhitelisted);
        }
        self.whitelist.upsert(Trusted { identity: String::from_str(identity) });
        assert(self.trusted() =~= old(self).trusted().insert(identity@));
        Ok(())
    }

    /// Stops trusting `identity`; refused if it is not trusted.
    pub fn remove_from_whitelist(&mut self, identity: &str) -> (r: Result<(), RateLimitError>)
        requires
            old(self).wf(),
        ensures
            final(self).wf(),
            final(self).stats() == old(self).stats(),
            !old(self).trusted().contains(identity@) ==> r == Err::<(), RateLimitError>(
                RateLimitError::NotWhitelisted,
            ) && final(self).trusted() == old(self).trusted(),
            old(self).trusted().contains(identity@) ==> r is Ok && final(self).trusted() == old(
                self,
            ).trusted().remove(identity@),
    {
        match self.whitelist.take(identity) {
            None => Err(RateLimitError::NotWhitelisted),
            Some(_) => {
                assert(self.trusted() =~= old(self).trusted().remove(identity@));
                Ok(())
            },
        }
    }

    /// Whether `identity` is trusted.
    pub fn is_whitelisted(&self, identity: &str) -> (r: bool)
        requires
            self.wf(),
        ensures
            r == self.trusted().contains(identity@),
    {
        self.whitelist.contains(identity)
    }

    /// The response to a trusted identity under a policy of `capacity`.
    pub fn whitelisted(&self, capacity: u32) -> (r: RateLimitResult)
        ensures
            r == whitelisted_result(capacity),
    {
        RateLimitResult {
            decision: Decision::Allow,
            headers: RateLimitHeaders {
                x_ratelimit_limit: capacity,
                x_ratelimit_remaining: capacity,
                retry_after_secs: None,
            },
        }
    }

    /// Records what the bucket of (`identity`, `endpoint`) answered: a
    /// denial counts as a violation of both; the response carries the
    /// policy's `capacity`, the whole tokens `remaining`, and on denial the
    /// seconds `retry_after` until the next token.
    pub fn record_check(
        &mut self,
        identity: &str,
        endpoint: &str,
        capacity: u32,
        allowed: bool,
        remaining: u32,
        retry_after: u64,
    ) -> (r: RateLimitResult)
        requires
            old(self).wf(),
            !allowed ==> count_of(old(self).stats().by_identity@, identity@) < u64::MAX,
            !allowed ==> count_of(old(self).stats().by_endpoint@, endpoint@) < u64::MAX,
        ensures
            final(self).wf(),
            final(self).trusted() == old(self).trusted(),
            r == bucket_result(capacity, allowed, remaining, retry_after),
            allowed ==> final(self).stats().by_identity@ == old(self).stats().by_identity@
                && final(self).stats().by_endpoint@ == old(self).stats().by_endpoint@,
            !allowed ==> final(self).stats().by_identity@ == old(
                self,
            ).stats().by_identity@.insert(
                identity@,
                (count_of(old(self).stats().by_identity@, identity@) + 1) as u64,
            ) && final(self).stats().by_endpoint@ == old(self).stats().by_endpoint@.insert(
                endpoint@,
                (count_of(old(self).stats().by_endpoint@, endpoint@) + 1) as u64,
            ),
    {
        if !allowed {
            self.violations.by_identity.increment(identity);
            self.violations.by_endpoint.increment(endpoint);
        }
        RateLimitResult {
            decision: if allowed { Decision::Allow } else { Decision::Deny },
            headers: RateLimitHeaders {
                x_ratelimit_limit: capacity,
                x_ratelimit_remaining: remaining,
                retry_after_secs: if allowed { None } else { Some(retry_after) },
            },
        }
    }
}

/// A trusted identity is always allowed, with its full capacity left,
/// whatever the capacity.
pub proof fn law_whitelist_always_allows(capacity: u32)
    ensures
        whitelisted_result(capacity).decision == Decision::Allow,
        whitelisted_result(capacity).headers.x_ratelimit_remaining == capacity,
        whitelisted_result(capacity).headers.retry_after_secs is None,
{
}

/// A denial, and only a denial, tells when to retry.
pub proof fn law_retry_only_on_deny(capacity: u32, allowed: bool, remaining: u32, retry_after: u64)
    ensures
        (bucket_result(capacity, allowed, remaining, retry_after).decision == Decision::Deny)
            <==> bucket_result(capacity, allowed, remaining, retry_after).headers.retry_after_secs
            is Some,
{
}

} // verus!
