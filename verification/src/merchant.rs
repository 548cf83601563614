//! Merchant management off chain: registration, activation and
//! deactivation, profile updates, the whitelist flag, search and stats,
//! over a repository that the caller provides. Every change is saved and
//! recorded in the repository's audit trail.
use vstd::prelude::*;
use vstd::string::StringExecFns;

use crate::contract::helper::byte_len;
use crate::search::{keep, lowercase, to_lowercase};
use crate::table::{Keyed, Table};
use crate::text::{contains_spec, contains_str};
use crate::text::{concat2, is_blank, is_blank_spec};

verus! {

/// Category of a merchant.
#[derive(Clone, Copy, Debug, Eq, PartialEq, Structural)]
pub enum MerchantCategory {
    Retail,
    Food,
    Services,
    Digital,
    Other,
}

/// The category's name.
pub open spec fn category_name(c: MerchantCategory) -> Seq<char> {
    match c {
        MerchantCategory::Retail => "Retail"@,
        MerchantCategory::Food => "Food"@,
        MerchantCategory::Services => "Services"@,
        MerchantCategory::Digital => "Digital"@,
        MerchantCategory::Other => "Other"@,
    }
}

impl MerchantCategory {
    /// The category's name.
    pub fn name(&self) -> (r: &'static str)
        ensures
            r@ == category_name(*self),
    {
        match self {
            MerchantCategory::Retail => "Retail",
            MerchantCategory::Food => "Food",
            MerchantCategory::Services => "Services",
            MerchantCategory::Digital => "Digital",
            MerchantCategory::Other => "Other",
        }
    }
}

/// A merchant profile.
#[derive(Clone, Debug)]
pub struct Merchant {
    pub address: String,
    pub name: String,
    pub description: String,
    pub contact_info: String,
    pub category: MerchantCategory,
    pub active: bool,
    pub whitelisted: bool,
    pub registered_at: u64,
    pub updated_at: u64,
}

/// Profile fields to change; `None` leaves a field as it is.
#[derive(Clone, Debug)]
pub struct UpdateMerchantRequest {
    pub name: Option<String>,
    pub description: Option<String>,
    pub contact_info: Option<String>,
    pub category: Option<MerchantCategory>,
}

impl UpdateMerchantRequest {
    /// A request that changes nothing.
    pub fn empty() -> (r: Self)
        ensures
            r.name is None,
            r.description is None,
            r.contact_info is None,
            r.category is None,
    {
        UpdateMerchantRequest { name: None, description: None, contact_info: None, category: None }
    }
}

/// Payment and refund totals of a merchant.
#[derive(Clone, Debug)]
pub struct MerchantStats {
    pub address: String,
    pub payment_count: u64,
    pub total_volume: i128,
    pub refund_count: u64,
    pub total_refunded: i128,
}

/// Search criteria; `None` does not filter.
#[derive(Clone, Debug)]
pub struct MerchantFilter {
    pub name_contains: Option<String>,
    pub category: Option<MerchantCategory>,
    pub active: Option<bool>,
    pub whitelisted: Option<bool>,
}

impl MerchantFilter {
    /// Criteria that keep every merchant.
    pub fn any() -> (r: Self)
        ensures
            r.name_contains is None,
            r.category is None,
            r.active is None,
            r.whitelisted is None,
    {
        MerchantFilter { name_contains: None, category: None, active: None, whitelisted: None }
    }
}

/// A change to a merchant, as the audit trail records it.
#[derive(Clone, Debug)]
pub struct AuditEntry {
    pub merchant_address: String,
    pub action: String,
    pub changed_by: String,
    pub changed_at: u64,
    pub details: Option<String>,
}

/// Why a merchant operation was refused.
#[derive(Debug, PartialEq, Eq)]
pub enum ServiceError {
    NotFound,
    AlreadyRegistered,
    AlreadyActive,
    AlreadyInactive,
    InvalidInput(String),
}

/// The message of an error.
pub open spec fn service_error_message(e: ServiceError) -> Seq<char> {
    match e {
        ServiceError::NotFound => "merchant not found"@,
        ServiceError::AlreadyRegistered => "merchant already registered"@,
        ServiceError::AlreadyActive => "merchant already active"@,
        ServiceError::AlreadyInactive => "merchant already inactive"@,
        ServiceError::InvalidInput(msg) => "invalid input: "@ + msg@,
    }
}

impl ServiceError {
    /// The error's message.
    pub fn to_string(&self) -> (r: String)
        ensures
            r@ == service_error_message(*self),
    {
        match self {
            ServiceError::NotFound => String::from_str("merchant not found"),
            ServiceError::AlreadyRegistered => String::from_str("merchant already registered"),
            ServiceError::AlreadyActive => String::from_str("merchant already active"),
            ServiceError::AlreadyInactive => String::from_str("merchant already inactive"),
            ServiceError::InvalidInput(msg) => concat2("invalid input: ", msg.as_str()),
        }
    }
}

/// Where merchants and their audit trail are kept.
pub trait MerchantRepository {
    /// Stored merchants by address.
    spec fn merchants(&self) -> Map<Seq<char>, Merchant>;

    /// The audit trail, oldest first.
    spec fn audit(&self) -> Seq<AuditEntry>;

    /// What `list` returns for `filter`.
    spec fn listed(&self, filter: MerchantFilter) -> Seq<Merchant>;

    /// What `get_stats` returns for `address`.
    spec fn stats_of(&self, address: Seq<char>) -> Option<MerchantStats>;

    /// The merchant stored at `address`.
    fn find_by_address(&self, address: &str) -> (r: Option<Merchant>)
        ensures
            match r {
                Some(m) => self.merchants().dom().contains(address@) && m == self.merchants()[address@],
                None => !self.merchants().dom().contains(address@),
            },
    ;

    /// Stores `merchant` under its address, replacing any earlier profile.
    fn save(&mut self, merchant: &Merchant)
        ensures
            final(self).merchants() == old(self).merchants().insert(merchant.address@, *merchant),
            final(self).audit() == old(self).audit(),
    ;

    /// The merchants that match `filter`.
    fn list(&self, filter: &MerchantFilter) -> (r: Vec<Merchant>)
        ensures
            r@ == self.listed(*filter),
    ;

    /// Appends `entry` to the audit trail.
    fn append_audit(&mut self, entry: AuditEntry)
        ensures
            final(self).audit() == old(self).audit().push(entry),
            final(self).merchants() == old(self).merchants(),
    ;

    /// Payment and refund totals of the merchant at `address`.
    fn get_stats(&self, address: &str) -> (r: Option<MerchantStats>)
        ensures
            r == self.stats_of(address@),
    ;
}

/// A name is 1 to 255 bytes and not only whitespace.
pub open spec fn name_ok(name: Seq<char>) -> bool {
    !is_blank_spec(name) && byte_len(name) <= 255
}

/// The message of a refused name.
pub open spec fn bad_name_message() -> Seq<char> {
    "name must be 1–255 characters"@
}

/// Checks a merchant name.
pub fn validate_name(name: &str) -> (r: Result<(), ServiceError>)
    ensures
        r is Ok <==> name_ok(name@),
        r is Err ==> (r matches Err(ServiceError::InvalidInput(m)) && m@ == bad_name_message()),
{
    if is_blank(name) || name.as_bytes().len() > 255 {
        return Err(ServiceError::InvalidInput(String::from_str("name must be 1–255 characters")));
    }
    Ok(())
}

/// `e` records `action` on `address` by `caller` at `now`.
pub open spec fn audit_is(
    e: AuditEntry,
    address: Seq<char>,
    action: Seq<char>,
    caller: Seq<char>,
    now: u64,
) -> bool {
    &&& e.merchant_address@ == address
    &&& e.action@ == action
    &&& e.changed_by@ == caller
    &&& e.changed_at == now
}

/// The items that an update lists in its audit details.
pub open spec fn changed_items(req: UpdateMerchantRequest) -> Seq<Seq<char>> {
    (match req.name {
        Some(n) => seq!["name:"@ + n@],
        None => Seq::empty(),
    }) + (if req.description is Some {
        seq!["description"@]
    } else {
        Seq::empty()
    }) + (if req.contact_info is Some {
        seq!["contact_info"@]
    } else {
        Seq::empty()
    }) + (match req.category {
        Some(c) => seq!["category:"@ + category_name(c)],
        None => Seq::empty(),
    })
}

/// `items` joined by commas.
pub open spec fn join_commas(items: Seq<Seq<char>>) -> Seq<char>
    decreases items.len(),
{
    if items.len() == 0 {
        Seq::empty()
    } else if items.len() == 1 {
        items[0]
    } else {
        join_commas(items.drop_last()) + ","@ + items.last()
    }
}

/// `m` with the fields of `req` applied.
pub open spec fn applied(m: Merchant, req: UpdateMerchantRequest) -> Merchant {
    Merchant {
        name: match req.name {
            Some(n) => n,
            None => m.name,
        },
        description: match req.description {
            Some(d) => d,
            None => m.description,
        },
        contact_info: match req.contact_info {
            Some(c) => c,
            None => m.contact_info,
        },
        category: match req.category {
            Some(c) => c,
            None => m.category,
        },
        ..m
    }
}

/// Merchant management over the repository `R`.
pub struct MerchantService<R: MerchantRepository> {
    repo: R,
}

impl<R: MerchantRepository> MerchantService<R> {
    /// The repository.
    pub closed spec fn repo(&self) -> R {
        self.repo
    }

    /// Each merchant is stored under its address.
    pub open spec fn wf(&self) -> bool {
        keyed_by_address(self.repo().merchants())
    }

    /// A service over `repo`.
    pub fn new(repo: R) -> (s: Self)
        requires
            keyed_by_address(repo.merchants()),
        ensures
            s.wf(),
            s.repo() == repo,
    {
        MerchantService { repo }
    }

    /// Registers the merchant at `address`: active, not whitelisted,
    /// registered and updated at `now`.
    pub fn register(
        &mut self,
        address: String,
        name: String,
        description: String,
        contact_info: String,
        category: MerchantCategory,
        caller: &str,
        now: u64,
    ) -> (r: Result<Merchant, ServiceError>)
        requires
            old(self).wf(),
        ensures
            final(self).wf(),
            old(self).repo().merchants().dom().contains(address@) ==> r == Err::<
                Merchant,
                ServiceError,
            >(ServiceError::AlreadyRegistered) && final(self).repo() == old(self).repo(),
            !old(self).repo().merchants().dom().contains(address@) && !name_ok(name@) ==> (r matches Err(
                ServiceError::InvalidInput(m),
            ) && m@ == bad_name_message()) && final(self).repo() == old(self).repo(),
            !old(self).repo().merchants().dom().contains(address@) && name_ok(name@) ==> {
                let m = Merchant {
                    address,
                    name,
                    description,
                    contact_info,
                    category,
                    active: true,
                    whitelisted: false,
                    registered_at: now,
                    updated_at: now,
                };
                &&& r == Ok::<Merchant, ServiceError>(m)
                &&& final(self).repo().merchants() == old(self).repo().merchants().insert(
                    address@,
                    m,
                )
                &&& final(self).repo().audit().len() == old(self).repo().audit().len() + 1
                &&& final(self).repo().audit().drop_last() == old(self).repo().audit()
                &&& audit_is(final(self).repo().audit().last(), address@, "registered"@, caller@, now)
                &&& final(self).repo().audit().last().details is None
            },
    {
        if self.repo.find_by_address(address.as_str()).is_some() {
            return Err(ServiceError::AlreadyRegistered);
        }
        validate_name(name.as_str())?;
        let merchant = Merchant {
            address: address.clone(),
            name,
            description,
            contact_info,
            category,
            active: true,
            whitelisted: false,
            registered_at: now,
            updated_at: now,
        };
        self.repo.save(&merchant);
        self.repo.append_audit(
            AuditEntry {
                merchant_address: address,
                action: String::from_str("registered"),
                changed_by: String::from_str(caller),
                changed_at: now,
                details: None,
            },
        );
        assert(self.repo.audit().drop_last() =~= old(self).repo().audit());
        Ok(merchant)
    }

    /// Sets the `active` flag of the merchant at `address` to `active`,
    /// refusing when it already has that value.
    fn set_active(&mut self, address: &str, active: bool, caller: &str, now: u64) -> (r: Result<
        (),
        ServiceError,
    >)
        requires
            old(self).wf(),
        ensures
            final(self).wf(),
            active_post(old(self).repo(), final(self).repo(), r, address@, active, caller@, now),
    {
        let mut m = match self.repo.find_by_address(address) {
            Some(m) => m,
            None => return Err(ServiceError::NotFound),
        };
        if m.active == active {
            return Err(if active { ServiceError::AlreadyActive } else { ServiceError::AlreadyInactive });
        }
        m.active = active;
        m.updated_at = now;
        self.repo.save(&m);
        self.repo.append_audit(
            AuditEntry {
                merchant_address: String::from_str(address),
                action: String::from_str(if active { "activated" } else { "deactivated" }),
                changed_by: String::from_str(caller),
                changed_at: now,
                details: None,
            },
        );
        assert(self.repo.audit().drop_last() =~= old(self).repo().audit());
        Ok(())
    }

    /// Deactivates the active merchant at `address`.
    pub fn deactivate(&mut self, address: &str, caller: &str, now: u64) -> (r: Result<(), ServiceError>)
        requires
            old(self).wf(),
        ensures
            final(self).wf(),
            active_post(old(self).repo(), final(self).repo(), r, address@, false, caller@, now),
    {
        self.set_active(address, false, caller, now)
    }

    /// Reactivates the inactive merchant at `address`.
    pub fn activate(&mut self, address: &str, caller: &str, now: u64) -> (r: Result<(), ServiceError>)
        requires
            old(self).wf(),
        ensures
            final(self).wf(),
            active_post(old(self).repo(), final(self).repo(), r, address@, true, caller@, now),
    {
        self.set_active(address, true, caller, now)
    }

    /// Applies the fields of `req` to the merchant at `address`. A request
    /// that changes nothing returns the profile as stored and records
    /// nothing.
    pub fn update_profile(
        &mut self,
        address: &str,
        req: UpdateMerchantRequest,
        caller: &str,
        now: u64,
    ) -> (r: Result<Merchant, ServiceError>)
        requires
            old(self).wf(),
        ensures
            final(self).wf(),
            !old(self).repo().merchants().dom().contains(address@) ==> r == Err::<
                Merchant,
                ServiceError,
            >(ServiceError::NotFound) && final(self).repo() == old(self).repo(),
            old(self).repo().merchants().dom().contains(address@) && (req.name matches Some(n)
                && !name_ok(n@)) ==> (r matches Err(ServiceError::InvalidInput(m)) && m@
                == bad_name_message()) && final(self).repo() == old(self).repo(),
            old(self).repo().merchants().dom().contains(address@) && !(req.name matches Some(n)
                && !name_ok(n@)) ==> {
                let m = applied(old(self).repo().merchants()[address@], req);
                let items = changed_items(req);
                if items.len() == 0 {
                    r == Ok::<Merchant, ServiceError>(m) && final(self).repo() == old(self).repo()
                } else {
                    let saved = Merchant { updated_at: now, ..m };
                    &&& r == Ok::<Merchant, ServiceError>(saved)
                    &&& final(self).repo().merchants() == old(self).repo().merchants().insert(
                        address@,
                        saved,
                    )
                    &&& final(self).repo().audit().len() == old(self).repo().audit().len() + 1
                    &&& final(self).repo().audit().drop_last() == old(self).repo().audit()
                    &&& audit_is(final(self).repo().audit().last(), address@, "updated"@, caller@, now)
                    &&& final(self).repo().audit().last().details matches Some(d) && d@ == join_commas(
                        items,
                    )
                }
            },
    {
        let mut m = match self.repo.find_by_address(address) {
            Some(m) => m,
            None => return Err(ServiceError::NotFound),
        };
        let ghost stored = m;
        let ghost mut items: Seq<Seq<char>> = Seq::empty();
        let mut details = String::new();
        let mut changed = false;
        assert(details@ == join_commas(items));
        match req.name {
            Some(name) => {
                validate_name(name.as_str())?;
                let item = concat2("name:", name.as_str());
                append_item(&mut details, changed, item.as_str());
                proof {
                    lemma_join_push(items, item@);
                    items = items.push(item@);
                }
                changed = true;
                m.name = name;
            },
            None => {},
        }
        match req.description {
            Some(desc) => {
                append_item(&mut details, changed, "description");
                proof {
                    lemma_join_push(items, "description"@);
                    items = items.push("description"@);
                }
                changed = true;
                m.description = desc;
            },
            None => {},
        }
        match req.contact_info {
            Some(ci) => {
                append_item(&mut details, changed, "contact_info");
                proof {
                    lemma_join_push(items, "contact_info"@);
                    items = items.push("contact_info"@);
                }
                changed = true;
                m.contact_info = ci;
            },
            None => {},
        }
        match req.category {
            Some(cat) => {
                let item = concat2("category:", cat.name());
                append_item(&mut details, changed, item.as_str());
                proof {
                    lemma_join_push(items, item@);
                    items = items.push(item@);
                }
                changed = true;
                m.category = cat;
            },
            None => {},
        }
        assert(items =~= changed_items(req));
        if !changed {
            return Ok(m);
        }
        m.updated_at = now;
        self.repo.save(&m);
        self.repo.append_audit(
            AuditEntry {
                merchant_address: String::from_str(address),
                action: String::from_str("updated"),
                changed_by: String::from_str(caller),
                changed_at: now,
                details: Some(details),
            },
        );
        assert(self.repo.audit().drop_last() =~= old(self).repo().audit());
        Ok(m)
    }

    /// Sets the whitelist flag of the merchant at `address`. Whether the
    /// caller may do so is for the caller to check.
    pub fn set_whitelist(&mut self, address: &str, whitelisted: bool, caller: &str, now: u64) -> (r:
        Result<(), ServiceError>)
        requires
            old(self).wf(),
        ensures
            final(self).wf(),
            !old(self).repo().merchants().dom().contains(address@) ==> r == Err::<(), ServiceError>(
                ServiceError::NotFound,
            ) && final(self).repo() == old(self).repo(),
            old(self).repo().merchants().dom().contains(address@) ==> {
                let m = old(self).repo().merchants()[address@];
                &&& r is Ok
                &&& final(self).repo().merchants() == old(self).repo().merchants().insert(
                    address@,
                    Merchant { whitelisted, updated_at: now, ..m },
                )
                &&& final(self).repo().audit().len() == old(self).repo().audit().len() + 1
                &&& final(self).repo().audit().drop_last() == old(self).repo().audit()
                &&& audit_is(
                    final(self).repo().audit().last(),
                    address@,
                    if whitelisted { "whitelisted"@ } else { "unwhitelisted"@ },
                    caller@,
                    now,
                )
                &&& final(self).repo().audit().last().details is None
            },
    {
        let mut m = match self.repo.find_by_address(address) {
            Some(m) => m,
            None => return Err(ServiceError::NotFound),
        };
        m.whitelisted = whitelisted;
        m.updated_at = now;
        self.repo.save(&m);
        self.repo.append_audit(
            AuditEntry {
                merchant_address: String::from_str(address),
                action: String::from_str(if whitelisted { "whitelisted" } else { "unwhitelisted" }),
                changed_by: String::from_str(caller),
                changed_at: now,
                details: None,
            },
        );
        assert(self.repo.audit().drop_last() =~= old(self).repo().audit());
        Ok(())
    }

    /// The merchant at `address`.
    pub fn get(&self, address: &str) -> (r: Option<Merchant>)
        ensures
            match r {
                Some(m) => self.repo().merchants().dom().contains(address@) && m
                    == self.repo().merchants()[address@],
                None => !self.repo().merchants().dom().contains(address@),
            },
    {
        self.repo.find_by_address(address)
    }

    /// The merchants the repository lists for `filter`.
    pub fn search(&self, filter: MerchantFilter) -> (r: Vec<Merchant>)
        ensures
            r@ == self.repo().listed(filter),
    {
        self.repo.list(&filter)
    }

    /// Payment and refund totals of the merchant at `address`.
    pub fn get_stats(&self, address: &str) -> (r: Result<MerchantStats, ServiceError>)
        ensures
            match self.repo().stats_of(address@) {
                Some(s) => r == Ok::<MerchantStats, ServiceError>(s),
                None => r == Err::<MerchantStats, ServiceError>(ServiceError::NotFound),
            },
    {
        match self.repo.get_stats(address) {
            Some(s) => Ok(s),
            None => Err(ServiceError::NotFound),
        }
    }
}

/// The outcome of setting the `active` flag of `address` to `active`.
pub open spec fn active_post<R: MerchantRepository>(
    before: R,
    after: R,
    r: Result<(), ServiceError>,
    address: Seq<char>,
    active: bool,
    caller: Seq<char>,
    now: u64,
) -> bool {
    &&& !before.merchants().dom().contains(address) ==> r == Err::<(), ServiceError>(
        ServiceError::NotFound,
    ) && after == before
    &&& before.merchants().dom().contains(address) && before.merchants()[address].active == active
        ==> r == Err::<(), ServiceError>(
        if active { ServiceError::AlreadyActive } else { ServiceError::AlreadyInactive },
    ) && after == before
    &&& before.merchants().dom().contains(address) && before.merchants()[address].active != active
        ==> {
        let m = before.merchants()[address];
        &&& r is Ok
        &&& after.merchants() == before.merchants().insert(
            address,
            Merchant { active, updated_at: now, ..m },
        )
        &&& after.audit().len() == before.audit().len() + 1
        &&& after.audit().drop_last() == before.audit()
        &&& audit_is(
            after.audit().last(),
            address,
            if active { "activated"@ } else { "deactivated"@ },
            caller,
            now,
        )
        &&& after.audit().last().details is None
    }
}

/// Joining one more item.
proof fn lemma_join_push(items: Seq<Seq<char>>, x: Seq<char>)
    ensures
        join_commas(items.push(x)) == (if items.len() == 0 { x } else { join_commas(items) + ","@
            + x }),
{
    assert(items.push(x).drop_last() =~= items);
    assert(items.push(x).last() == x);
    if items.len() == 0 {
        assert(items.push(x)[0] == x);
    }
}

/// Every merchant is stored under its own address.
pub open spec fn keyed_by_address(m: Map<Seq<char>, Merchant>) -> bool {
    forall|k: Seq<char>| #[trigger] m.dom().contains(k) ==> m[k].address@ == k
}

/// Appends `item` to the comma-separated `details`, after a comma unless
/// it is the first item.
fn append_item(details: &mut String, after_first: bool, item: &str)
    ensures
        final(details)@ == (if after_first { old(details)@ + ","@ + item@ } else { old(details)@ + item@ }),
{
    *details = if after_first {
        crate::text::concat3(details.as_str(), ",", item)
    } else {
        concat2(details.as_str(), item)
    };
}

impl Keyed for Merchant {
    type K = str;

    open spec fn key_view(&self) -> Seq<char> {
        self.address@
    }

    fn key_str(&self) -> (r: &str) {
        self.address.as_str()
    }

    fn same_key(a: &str, b: &str) -> (r: bool) {
        crate::table::str_eq(a, b)
    }
}

fn copy_merchant(m: &Merchant) -> (r: Merchant)
    ensures
        r == *m,
{
    Merchant {
        address: m.address.clone(),
        name: m.name.clone(),
        description: m.description.clone(),
        contact_info: m.contact_info.clone(),
        category: m.category,
        active: m.active,
        whitelisted: m.whitelisted,
        registered_at: m.registered_at,
        updated_at: m.updated_at,
    }
}

/// The merchant `m` meets `filter`: its name contains the text asked for
/// in any case, and the category and flags agree where given.
pub open spec fn filter_matches(m: Merchant, filter: MerchantFilter) -> bool {
    &&& (filter.name_contains matches Some(n) ==> contains_spec(lowercase(m.name@), lowercase(n@)))
    &&& (filter.category matches Some(c) ==> m.category == c)
    &&& (filter.active matches Some(a) ==> m.active == a)
    &&& (filter.whitelisted matches Some(w) ==> m.whitelisted == w)
}

fn filter_ok(m: &Merchant, filter: &MerchantFilter) -> (r: bool)
    ensures
        r == filter_matches(*m, *filter),
{
    match &filter.name_contains {
        Some(n) => {
            let hay = to_lowercase(m.name.as_str());
            let needle = to_lowercase(n.as_str());
            if !contains_str(hay.as_str(), needle.as_str()) {
                return false;
            }
        },
        None => {},
    }
    match filter.category {
        Some(c) => if m.category != c {
            return false;
        },
        None => {},
    }
    match filter.active {
        Some(a) => if m.active != a {
            return false;
        },
        None => {},
    }
    match filter.whitelisted {
        Some(w) => if m.whitelisted != w {
            return false;
        },
        None => {},
    }
    true
}

/// A repository held in memory: merchants in order of first registration,
/// and the audit trail. It records no payments, so the stats of a stored
/// merchant are all zero.
pub struct MemoryRepository {
    merchants: Table<Merchant>,
    audit: Vec<AuditEntry>,
}

impl MemoryRepository {
    #[verifier::type_invariant]
    closed spec fn inv(self) -> bool {
        self.merchants.wf()
    }

    /// Stored merchants in order of first registration.
    pub closed spec fn entries(&self) -> Seq<Merchant> {
        self.merchants.entries()
    }

    /// An empty repository.
    pub fn new() -> (r: Self)
        ensures
            r.merchants() == Map::<Seq<char>, Merchant>::empty(),
            r.audit().len() == 0,
            keyed_by_address(r.merchants()),
    {
        MemoryRepository { merchants: Table::new(), audit: Vec::new() }
    }

    /// The audit trail, oldest first.
    pub fn audit_trail(&self) -> (r: &[AuditEntry])
        ensures
            r@ == self.audit(),
    {
        self.audit.as_slice()
    }
}

impl MerchantRepository for MemoryRepository {
    closed spec fn merchants(&self) -> Map<Seq<char>, Merchant> {
        self.merchants@
    }

    closed spec fn audit(&self) -> Seq<AuditEntry> {
        self.audit@
    }

    closed spec fn listed(&self, filter: MerchantFilter) -> Seq<Merchant> {
        keep(self.merchants.entries(), |m: Merchant| filter_matches(m, filter))
    }

    closed spec fn stats_of(&self, address: Seq<char>) -> Option<MerchantStats> {
        if self.merchants@.dom().contains(address) {
            Some(
                MerchantStats {
                    address: self.merchants@[address].address,
                    payment_count: 0,
                    total_volume: 0,
                    refund_count: 0,
                    total_refunded: 0,
                },
            )
        } else {
            None
        }
    }

    fn find_by_address(&self, address: &str) -> (r: Option<Merchant>) {
        proof {
            use_type_invariant(self);
        }
        match self.merchants.get(address) {
            Some(m) => Some(copy_merchant(m)),
            None => None,
        }
    }

    fn save(&mut self, merchant: &Merchant) {
        proof {
            use_type_invariant(&*self);
        }
        let mut t = Table::new();
        std::mem::swap(&mut t, &mut self.merchants);
        t.upsert(copy_merchant(merchant));
        self.merchants = t;
    }

    fn list(&self, filter: &MerchantFilter) -> (r: Vec<Merchant>) {
        proof {
            use_type_invariant(self);
        }
        let ghost all = self.merchants.entries();
        let mut out: Vec<Merchant> = Vec::new();
        let mut i: usize = 0;
        while i < self.merchants.len()
            invariant
                all == self.merchants.entries(),
                i <= all.len(),
                out@ == keep(all.take(i as int), |m: Merchant| filter_matches(m, *filter)),
            decreases all.len() - i,
        {
            let m = self.merchants.at(i);
            assert(all.take(i + 1).drop_last() =~= all.take(i as int));
            if filter_ok(m, filter) {
                out.push(copy_merchant(m));
            }
            assert(out@ =~= keep(all.take(i + 1), |m: Merchant| filter_matches(m, *filter)));
            i = i + 1;
        }
        assert(all.take(i as int) =~= all);
        out
    }

    fn append_audit(&mut self, entry: AuditEntry) {
        proof {
            use_type_invariant(&*self);
        }
        let mut a: Vec<AuditEntry> = Vec::new();
        std::mem::swap(&mut a, &mut self.audit);
        a.push(entry);
        self.audit = a;
    }

    fn get_stats(&self, address: &str) -> (r: Option<MerchantStats>) {
        proof {
            use_type_invariant(self);
        }
        match self.merchants.get(address) {
            Some(m) => Some(
                MerchantStats {
                    address: m.address.clone(),
                    payment_count: 0,
                    total_volume: 0,
                    refund_count: 0,
                    total_refunded: 0,
                },
            ),
            None => None,
        }
    }
}

/// A profile update sets exactly the fields its request carries: a field
/// the request sets takes the requested value, a field it leaves out keeps
/// the stored value, and the address, the active and whitelist flags and
/// the registration time never change. (`update_profile` returns and stores
/// this profile, stamped with the update time when anything was set.)
pub proof fn law_update_sets_requested_fields(m: Merchant, req: UpdateMerchantRequest)
    ensures
        req.name matches Some(n) ==> applied(m, req).name == n,
        req.name is None ==> applied(m, req).name == m.name,
        req.description matches Some(d) ==> applied(m, req).description == d,
        req.description is None ==> applied(m, req).description == m.description,
        req.contact_info matches Some(c) ==> applied(m, req).contact_info == c,
        req.contact_info is None ==> applied(m, req).contact_info == m.contact_info,
        req.category matches Some(c) ==> applied(m, req).category == c,
        req.category is None ==> applied(m, req).category == m.category,
        applied(m, req).address == m.address,
        applied(m, req).active == m.active,
        applied(m, req).whitelisted == m.whitelisted,
        applied(m, req).registered_at == m.registered_at,
        applied(m, req).updated_at == m.updated_at,
        (req.name is Some || req.description is Some || req.contact_info is Some || req.category is Some)
            <==> changed_items(req).len() > 0,
{
}

} // verus!
