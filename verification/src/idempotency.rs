//! Idempotency keys: a repeated payment or refund request returns the
//! response cached for its key during a configurable time-to-live window.
use std::hash::Hasher;
use vstd::std_specs::hash::DefaultHasherAdditionalSpecFns;
use vstd::prelude::*;
use vstd::string::StringSliceAdditionalSpecFns;

use crate::table::{Keyed, Table};

verus! {

/// Default time-to-live: 24 hours, in seconds.
pub const DEFAULT_TTL_SECONDS: u64 = 86_400;

/// A cached entry stored against an idempotency key.
#[derive(Debug, Clone)]
pub struct IdempotentEntry {
    pub key: String,
    /// `"payment"` or `"refund"`.
    pub operation: String,
    /// Hash of the canonical request body.
    pub request_hash: u64,
    /// The serialised response.
    pub response_body: String,
    pub created_at: u64,
    pub expires_at: u64,
}

impl Keyed for IdempotentEntry {
    type K = str;

    open spec fn key_view(&self) -> Seq<char> {
        self.key@
    }

    fn key_str(&self) -> (r: &str) {
        self.key.as_str()
    }

    fn same_key(a: &str, b: &str) -> (r: bool) {
        crate::table::str_eq(a, b)
    }
}

/// Result of an idempotency check.
#[derive(Debug)]
pub enum IdempotencyResult {
    /// No live entry: the caller runs the operation, then calls `store`.
    New,
    /// A live entry with the same operation and request body: its cached response.
    Duplicate(String),
    /// A live entry for the key, but another operation or another body.
    Conflict,
}

/// Storage backend for idempotency entries (a database or a cache in production).
pub trait IdempotencyStore {
    /// The entries held, by key.
    spec fn entries(&self) -> Map<Seq<char>, IdempotentEntry>;

    /// The entry stored under `key`.
    fn get(&self, key: &str) -> (r: Option<IdempotentEntry>)
        ensures
            match r {
                Some(e) => self.entries().dom().contains(key@) && e == self.entries()[key@],
                None => !self.entries().dom().contains(key@),
            },
    ;

    /// Stores `entry` under its own key, replacing any earlier entry.
    fn set(&mut self, entry: IdempotentEntry)
        ensures
            final(self).entries() == old(self).entries().insert(entry.key@, entry),
    ;

    /// Removes every entry whose `expires_at` is at most `now`.
    fn evict_expired(&mut self, now: u64)
        ensures
            final(self).entries() == live_entries(old(self).entries(), now),
    ;
}

/// The entries of `m` that are still alive at `now`.
pub open spec fn live_entries(m: Map<Seq<char>, IdempotentEntry>, now: u64) -> Map<
    Seq<char>,
    IdempotentEntry,
> {
    m.restrict(Set::new(|k: Seq<char>| m.dom().contains(k) && m[k].expires_at > now))
}

/// The hash that `str`'s `Hash` feeds a fresh `DefaultHasher`: the UTF-8
/// bytes, then the terminator byte `0xff`.
pub open spec fn request_hash_spec(body: Seq<char>) -> u64 {
    std::hash::DefaultHasher::spec_finish(
        seq![vstd::utf8::encode_utf8(body), seq![0xffu8]],
    )
}

/// Hash of a request body, as `body.hash(&mut DefaultHasher::new())` computes it.
pub fn hash_str(s: &str) -> (h: u64)
    ensures
        h == request_hash_spec(s@),
{
    let mut hasher = std::hash::DefaultHasher::new();
    hasher.write(s.as_bytes());
    let terminator: Vec<u8> = vec![0xffu8];
    hasher.write(terminator.as_slice());
    proof {
        assert(terminator@ =~= seq![0xffu8]);
        assert(hasher@ =~= seq![vstd::utf8::encode_utf8(s@), seq![0xffu8]]);
    }
    hasher.finish()
}

/// What a check answers, given the entry stored under the key.
pub open spec fn check_result(
    entry: Option<IdempotentEntry>,
    operation: Seq<char>,
    body_hash: u64,
    now: u64,
) -> IdempotencyResult {
    match entry {
        None => IdempotencyResult::New,
        Some(e) => if e.expires_at <= now {
            IdempotencyResult::New
        } else if e.operation@ != operation {
            IdempotencyResult::Conflict
        } else if e.request_hash != body_hash {
            IdempotencyResult::Conflict
        } else {
            IdempotencyResult::Duplicate(e.response_body)
        },
    }
}

/// The answer to a check on the stored entry `entry`.
pub fn classify(entry: Option<IdempotentEntry>, operation: &str, request_body: &str, now: u64) -> (r:
    IdempotencyResult)
    ensures
        r == check_result(entry, operation@, request_hash_spec(request_body@), now),
{
    let entry = match entry {
        None => return IdempotencyResult::New,
        Some(e) => e,
    };
    if entry.expires_at <= now {
        return IdempotencyResult::New;
    }
    if !crate::table::str_eq(entry.operation.as_str(), operation) {
        return IdempotencyResult::Conflict;
    }
    let incoming_hash = hash_str(request_body);
    if entry.request_hash != incoming_hash {
        return IdempotencyResult::Conflict;
    }
    IdempotencyResult::Duplicate(entry.response_body)
}

/// The entry stored under `key` in `m`, as an option.
pub open spec fn lookup(m: Map<Seq<char>, IdempotentEntry>, key: Seq<char>) -> Option<
    IdempotentEntry,
> {
    if m.dom().contains(key) {
        Some(m[key])
    } else {
        None
    }
}

/// Idempotency checks over a store, with a time-to-live for entries.
pub struct IdempotencyService<S> {
    store: S,
    ttl: u64,
}

impl<S: IdempotencyStore> IdempotencyService<S> {
    /// The entries of the underlying store.
    pub closed spec fn stored(&self) -> Map<Seq<char>, IdempotentEntry> {
        self.store.entries()
    }

    /// The time-to-live given to new entries, in seconds.
    pub closed spec fn ttl_secs(&self) -> u64 {
        self.ttl
    }

    /// A service with the default time-to-live.
    pub fn new(store: S) -> (s: Self)
        ensures
            s.stored() == store.entries(),
            s.ttl_secs() == DEFAULT_TTL_SECONDS,
    {
        IdempotencyService { store, ttl: DEFAULT_TTL_SECONDS }
    }

    /// A service with a time-to-live of `ttl_seconds`.
    pub fn with_ttl(store: S, ttl_seconds: u64) -> (s: Self)
        ensures
            s.stored() == store.entries(),
            s.ttl_secs() == ttl_seconds,
    {
        IdempotencyService { store, ttl: ttl_seconds }
    }

    /// Whether `idempotency_key` was seen before for `operation` with the
    /// same `request_body` (its canonical text) and is still alive at `now`.
    pub fn check(&self, idempotency_key: &str, operation: &str, request_body: &str, now: u64) -> (r:
        IdempotencyResult)
        ensures
            r == check_result(
                lookup(self.stored(), idempotency_key@),
                operation@,
                request_hash_spec(request_body@),
                now,
            ),
    {
        let entry = self.store.get(idempotency_key);
        classify(entry, operation, request_body, now)
    }

    /// Caches the response of an operation that succeeded; the entry expires
    /// `ttl` seconds after `now`.
    pub fn store(
        &mut self,
        idempotency_key: String,
        operation: String,
        request_body: &str,
        response_body: String,
        now: u64,
    )
        requires
            now + old(self).ttl_secs() <= u64::MAX,
        ensures
            final(self).ttl_secs() == old(self).ttl_secs(),
            final(self).stored() == old(self).stored().insert(
                idempotency_key@,
                IdempotentEntry {
                    key: idempotency_key,
                    operation,
                    request_hash: request_hash_spec(request_body@),
                    response_body,
                    created_at: now,
                    expires_at: (now + old(self).ttl_secs()) as u64,
                },
            ),
    {
        let request_hash = hash_str(request_body);
        let expires_at = now + self.ttl;
        self.store.set(
            IdempotentEntry {
                key: idempotency_key,
                operation,
                request_hash,
                response_body,
                created_at: now,
                expires_at,
            },
        );
    }

    /// Evicts the entries that have expired at `now`.
    pub fn cleanup(&mut self, now: u64)
        ensures
            final(self).ttl_secs() == old(self).ttl_secs(),
            final(self).stored() == live_entries(old(self).stored(), now),
    {
        self.store.evict_expired(now);
    }
}

/// An in-memory idempotency store.
pub struct MemoryStore {
    table: Table<IdempotentEntry>,
}

impl MemoryStore {
    /// Keys are unique in the table.
    pub closed spec fn wf(&self) -> bool {
        self.table.wf()
    }

    /// An empty store.
    pub fn new() -> (s: Self)
        ensures
            s.entries() == Map::<Seq<char>, IdempotentEntry>::empty(),
    {
        MemoryStore { table: Table::new() }
    }
}

/// A field-by-field copy of an entry.
pub fn copy_entry(e: &IdempotentEntry) -> (r: IdempotentEntry)
    ensures
        r == *e,
{
    IdempotentEntry {
        key: e.key.clone(),
        operation: e.operation.clone(),
        request_hash: e.request_hash,
        response_body: e.response_body.clone(),
        created_at: e.created_at,
        expires_at: e.expires_at,
    }
}

impl IdempotencyStore for MemoryStore {
    closed spec fn entries(&self) -> Map<Seq<char>, IdempotentEntry> {
        if self.table.wf() {
            self.table.view()
        } else {
            Map::empty()
        }
    }

    fn get(&self, key: &str) -> (r: Option<IdempotentEntry>) {
        proof {
            use_type_invariant(self);
        }
        match self.table.get(key) {
            Some(e) => Some(copy_entry(e)),
            None => None,
        }
    }

    fn set(&mut self, entry: IdempotentEntry) {
        proof {
            use_type_invariant(&*self);
        }
        let mut t: Table<IdempotentEntry> = Table::new();
        std::mem::swap(&mut t, &mut self.table);
        t.upsert(entry);
        self.table = t;
    }

    fn evict_expired(&mut self, now: u64) {
        proof {
            use_type_invariant(&*self);
            self.table.lemma_view();
        }
        let ghost old_view = self.table.view();
        let mut kept: Table<IdempotentEntry> = Table::new();
        let n = self.table.len();
        let mut i: usize = 0;
        while i < n
            invariant
                self.table.wf(),
                n == self.table.entries().len(),
                old_view == self.table.view(),
                i <= n,
                kept.wf(),
                forall|k: Seq<char>| #[trigger]
                    kept.view().dom().contains(k) <==> exists|j: int|
                        0 <= j < i && self.table.entries()[j].key_view() == k
                            && self.table.entries()[j].expires_at > now,
                forall|k: Seq<char>| #[trigger]
                    kept.view().dom().contains(k) ==> kept.view()[k] == old_view[k],
            decreases n - i,
        {
            proof {
                self.table.lemma_view();
            }
            let e = self.table.at(i);
            proof {
                assert(self.table.view().dom().contains(self.table.entries()[i as int].key_view()));
            }
            if e.expires_at > now {
                let c = copy_entry(e);
                kept.upsert(c);
            }
            i = i + 1;
        }
        proof {
            self.table.lemma_view();
            assert(kept.view() =~= live_entries(old_view, now)) by {
                assert forall|k: Seq<char>| #[trigger] kept.view().dom().contains(k) <==> live_entries(
                    old_view,
                    now,
                ).dom().contains(k) by {
                    if old_view.dom().contains(k) {
                        let j = choose|j: int|
                            0 <= j < self.table.entries().len() && self.table.entries()[j].key_view()
                                == k;
                        assert(old_view[k] == self.table.entries()[j]);
                    }
                    if kept.view().dom().contains(k) {
                        let j = choose|j: int|
                            0 <= j < i && self.table.entries()[j].key_view() == k
                                && self.table.entries()[j].expires_at > now;
                        assert(old_view[k] == self.table.entries()[j]);
                    }
                }
            }
        }
        self.table = kept;
    }
}

impl MemoryStore {
    #[verifier::type_invariant]
    spec fn inv(self) -> bool {
        self.table.wf()
    }
}

// ── Laws ─────────────────────────────────────────────────────────────────────

/// A request repeated with the same key, operation and body before the
/// entry expires is answered with the cached response.
pub proof fn law_duplicate_returns_cached_response(
    stored: Map<Seq<char>, IdempotentEntry>,
    key: String,
    operation: String,
    body: Seq<char>,
    response: String,
    stored_at: u64,
    ttl: u64,
    now: u64,
)
    requires
        stored_at + ttl <= u64::MAX,
        now < stored_at + ttl,
    ensures
        check_result(
            lookup(
                stored.insert(
                    key@,
                    IdempotentEntry {
                        key,
                        operation,
                        request_hash: request_hash_spec(body),
                        response_body: response,
                        created_at: stored_at,
                        expires_at: (stored_at + ttl) as u64,
                    },
                ),
                key@,
            ),
            operation@,
            request_hash_spec(body),
            now,
        ) == IdempotencyResult::Duplicate(response),
{
}

/// The same key reused for another operation, or with a body of another
/// hash, is a conflict while the entry lives.
pub proof fn law_mismatch_is_conflict(
    e: IdempotentEntry,
    operation: Seq<char>,
    body: Seq<char>,
    now: u64,
)
    requires
        now < e.expires_at,
        e.operation@ != operation || e.request_hash != request_hash_spec(body),
    ensures
        check_result(Some(e), operation, request_hash_spec(body), now)
            == IdempotencyResult::Conflict,
{
}

/// An entry is treated as new once it has expired, and is gone after a
/// cleanup at or after its expiry, while live entries survive a cleanup.
pub proof fn law_expiry(
    stored: Map<Seq<char>, IdempotentEntry>,
    key: Seq<char>,
    operation: Seq<char>,
    body_hash: u64,
    now: u64,
)
    ensures
        stored.dom().contains(key) && stored[key].expires_at <= now ==> check_result(
            lookup(stored, key),
            operation,
            body_hash,
            now,
        ) == IdempotencyResult::New,
        stored.dom().contains(key) && stored[key].expires_at <= now ==> !live_entries(
            stored,
            now,
        ).dom().contains(key),
        stored.dom().contains(key) && stored[key].expires_at > now ==> lookup(
            live_entries(stored, now),
            key,
        ) == lookup(stored, key),
{
}

} // verus!
