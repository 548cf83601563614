//! Search over payments, merchants and refunds: combined filters, a stable
//! sort on one field, and cursor pagination. The records come from indexes
//! that the caller provides.
use vstd::prelude::*;
use vstd::string::StringExecFns;

use crate::sort::{sort_spec, stable_sort, OrderKey};
use crate::text::{contains_spec, contains_str, eq_ignore_ascii_case, eq_ignore_ascii_case_spec};

verus! {

/// Page size when the query names none.
pub const DEFAULT_PAGE_LIMIT: u32 = 20;
/// Largest page size.
pub const MAX_PAGE_LIMIT: u32 = 100;

/// Sort direction.
#[derive(Clone, Copy, Debug, Eq, PartialEq, Structural)]
pub enum SortOrder {
    Ascending,
    Descending,
}

/// Sort fields of payments.
#[derive(Clone, Copy, Debug, Eq, PartialEq, Structural)]
pub enum PaymentSortField {
    Date,
    Amount,
    MerchantAddress,
    PayerAddress,
}

/// Payment statuses a query may ask for.
#[derive(Clone, Copy, Debug, Eq, PartialEq, Structural)]
pub enum PaymentStatusFilter {
    Any,
    Completed,
    PartiallyRefunded,
    FullyRefunded,
}

/// The name of a status filter, which a payment's status must equal.
pub open spec fn status_filter_name(s: PaymentStatusFilter) -> Seq<char> {
    match s {
        PaymentStatusFilter::Any => "Any"@,
        PaymentStatusFilter::Completed => "Completed"@,
        PaymentStatusFilter::PartiallyRefunded => "PartiallyRefunded"@,
        PaymentStatusFilter::FullyRefunded => "FullyRefunded"@,
    }
}

impl PaymentStatusFilter {
    /// The name of the status filter.
    pub fn name(&self) -> (r: &'static str)
        ensures
            r@ == status_filter_name(*self),
    {
        match self {
            PaymentStatusFilter::Any => "Any",
            PaymentStatusFilter::Completed => "Completed",
            PaymentStatusFilter::PartiallyRefunded => "PartiallyRefunded",
            PaymentStatusFilter::FullyRefunded => "FullyRefunded",
        }
    }
}

/// Criteria of a payment search; `None` does not filter.
#[derive(Clone, Debug)]
pub struct PaymentSearchQuery {
    pub merchant_address: Option<String>,
    pub payer_address: Option<String>,
    pub token_address: Option<String>,
    pub amount_min: Option<i128>,
    pub amount_max: Option<i128>,
    pub date_start: Option<u64>,
    pub date_end: Option<u64>,
    /// The payment's status must be one of these.
    pub statuses: Option<Vec<PaymentStatusFilter>>,
    pub sort_field: Option<PaymentSortField>,
    pub sort_order: Option<SortOrder>,
    /// Id of the last payment of the previous page.
    pub cursor: Option<String>,
    pub limit: Option<u32>,
}

impl PaymentSearchQuery {
    /// A query without criteria.
    pub fn all() -> (q: Self)
        ensures
            q.merchant_address is None && q.payer_address is None && q.token_address is None,
            q.amount_min is None && q.amount_max is None,
            q.date_start is None && q.date_end is None,
            q.statuses is None && q.sort_field is None && q.sort_order is None,
            q.cursor is None && q.limit is None,
    {
        PaymentSearchQuery {
            merchant_address: None,
            payer_address: None,
            token_address: None,
            amount_min: None,
            amount_max: None,
            date_start: None,
            date_end: None,
            statuses: None,
            sort_field: None,
            sort_order: None,
            cursor: None,
            limit: None,
        }
    }
}

/// A payment as the index holds it.
#[derive(Clone, Debug)]
pub struct PaymentRecord {
    pub order_id: String,
    pub merchant_address: String,
    pub payer_address: String,
    pub token_address: String,
    pub amount: i128,
    pub refunded_amount: i128,
    pub status: String,
    pub paid_at: u64,
}

/// A page of payments.
#[derive(Debug)]
pub struct PaymentPage {
    pub records: Vec<PaymentRecord>,
    /// Id of the last payment on the page, when more follow.
    pub next_cursor: Option<String>,
    /// Number of payments that match, over all pages.
    pub total: u64,
}

/// Sort fields of merchants.
#[derive(Clone, Copy, Debug, Eq, PartialEq, Structural)]
pub enum MerchantSortField {
    Name,
    RegisteredAt,
    Category,
}

/// Criteria of a merchant search.
#[derive(Clone, Debug)]
pub struct MerchantSearchQuery {
    /// Part of the name, in any case.
    pub name_contains: Option<String>,
    pub category: Option<String>,
    pub active: Option<bool>,
    pub whitelisted: Option<bool>,
    pub sort_field: Option<MerchantSortField>,
    pub sort_order: Option<SortOrder>,
    pub cursor: Option<String>,
    pub limit: Option<u32>,
}

impl MerchantSearchQuery {
    /// A query without criteria.
    pub fn all() -> (q: Self)
        ensures
            q.name_contains is None && q.category is None && q.active is None && q.whitelisted
                is None,
            q.sort_field is None && q.sort_order is None && q.cursor is None && q.limit is None,
    {
        MerchantSearchQuery {
            name_contains: None,
            category: None,
            active: None,
            whitelisted: None,
            sort_field: None,
            sort_order: None,
            cursor: None,
            limit: None,
        }
    }
}

/// A merchant as the index holds it.
#[derive(Clone, Debug)]
pub struct MerchantRecord {
    pub address: String,
    pub name: String,
    pub category: String,
    pub active: bool,
    pub whitelisted: bool,
    pub registered_at: u64,
}

/// A page of merchants.
#[derive(Debug)]
pub struct MerchantPage {
    pub records: Vec<MerchantRecord>,
    pub next_cursor: Option<String>,
    pub total: u64,
}

/// Sort fields of refunds.
#[derive(Clone, Copy, Debug, Eq, PartialEq, Structural)]
pub enum RefundSortField {
    InitiatedAt,
    Amount,
}

/// Criteria of a refund search.
#[derive(Clone, Debug)]
pub struct RefundSearchQuery {
    pub order_id: Option<String>,
    pub initiated_by: Option<String>,
    /// The refund's status must equal one of these, in any case.
    pub statuses: Option<Vec<String>>,
    pub date_start: Option<u64>,
    pub date_end: Option<u64>,
    pub amount_min: Option<i128>,
    pub amount_max: Option<i128>,
    pub sort_field: Option<RefundSortField>,
    pub sort_order: Option<SortOrder>,
    pub cursor: Option<String>,
    pub limit: Option<u32>,
}

impl RefundSearchQuery {
    /// A query without criteria.
    pub fn all() -> (q: Self)
        ensures
            q.order_id is None && q.initiated_by is None && q.statuses is None,
            q.date_start is None && q.date_end is None && q.amount_min is None && q.amount_max
                is None,
            q.sort_field is None && q.sort_order is None && q.cursor is None && q.limit is None,
    {
        RefundSearchQuery {
            order_id: None,
            initiated_by: None,
            statuses: None,
            date_start: None,
            date_end: None,
            amount_min: None,
            amount_max: None,
            sort_field: None,
            sort_order: None,
            cursor: None,
            limit: None,
        }
    }
}

/// A refund as the index holds it.
#[derive(Clone, Debug)]
pub struct RefundRecord {
    pub refund_id: String,
    pub order_id: String,
    pub amount: i128,
    pub status: String,
    pub initiated_by: String,
    pub initiated_at: u64,
}

/// A page of refunds.
#[derive(Debug)]
pub struct RefundPage {
    pub records: Vec<RefundRecord>,
    pub next_cursor: Option<String>,
    pub total: u64,
}

/// The source of the payments searched.
pub trait PaymentIndex {
    /// The payments it holds.
    spec fn records(&self) -> Seq<PaymentRecord>;

    /// All payments.
    fn all(&self) -> (r: Vec<PaymentRecord>)
        ensures
            r@ == self.records(),
    ;
}

/// The source of the merchants searched.
pub trait MerchantIndex {
    spec fn records(&self) -> Seq<MerchantRecord>;

    fn all(&self) -> (r: Vec<MerchantRecord>)
        ensures
            r@ == self.records(),
    ;
}

/// The source of the refunds searched.
pub trait RefundIndex {
    spec fn records(&self) -> Seq<RefundRecord>;

    fn all(&self) -> (r: Vec<RefundRecord>)
        ensures
            r@ == self.records(),
    ;
}

/// An index over records held in memory, in the order given.
pub struct VecIndex<T> {
    pub items: Vec<T>,
}

impl PaymentIndex for VecIndex<PaymentRecord> {
    open spec fn records(&self) -> Seq<PaymentRecord> {
        self.items@
    }

    fn all(&self) -> (r: Vec<PaymentRecord>) {
        copy_all(&self.items)
    }
}

impl MerchantIndex for VecIndex<MerchantRecord> {
    open spec fn records(&self) -> Seq<MerchantRecord> {
        self.items@
    }

    fn all(&self) -> (r: Vec<MerchantRecord>) {
        copy_all(&self.items)
    }
}

impl RefundIndex for VecIndex<RefundRecord> {
    open spec fn records(&self) -> Seq<RefundRecord> {
        self.items@
    }

    fn all(&self) -> (r: Vec<RefundRecord>) {
        copy_all(&self.items)
    }
}

fn copy_all<T: SearchRecord>(v: &Vec<T>) -> (r: Vec<T>)
    ensures
        r@ == v@,
{
    let mut out: Vec<T> = Vec::new();
    let mut i: usize = 0;
    while i < v.len()
        invariant
            i <= v@.len(),
            out@ == v@.take(i as int),
        decreases v@.len() - i,
    {
        out.push(v[i].copy());
        assert(out@ =~= v@.take(i + 1));
        i = i + 1;
    }
    assert(v@.take(i as int) =~= v@);
    out
}

// ── Lowercasing ──────────────────────────────────────────────────────────────

/// `str::to_lowercase` of `s`: the Unicode lowercase mapping, character by
/// character with its context rules.
pub uninterp spec fn lowercase(s: Seq<char>) -> Seq<char>;

/// Calls `str::to_lowercase`. Its result depends on `s` alone; what it is
/// is left to the name `lowercase`.
#[verifier::external_body]
pub(crate) fn to_lowercase(s: &str) -> (r: String)
    ensures
        r@ == lowercase(s@),
{
    s.to_lowercase()
}

// ── Records with keys ────────────────────────────────────────────────────────

/// A record with a text key that pages are cut by.
pub trait SearchRecord: Sized {
    spec fn key(&self) -> Seq<char>;

    fn key_str(&self) -> (r: &str)
        ensures
            r@ == self.key(),
    ;

    fn copy(&self) -> (r: Self)
        ensures
            r == *self,
    ;
}

impl SearchRecord for PaymentRecord {
    open spec fn key(&self) -> Seq<char> {
        self.order_id@
    }

    fn key_str(&self) -> (r: &str) {
        self.order_id.as_str()
    }

    fn copy(&self) -> (r: Self) {
        PaymentRecord {
            order_id: self.order_id.clone(),
            merchant_address: self.merchant_address.clone(),
            payer_address: self.payer_address.clone(),
            token_address: self.token_address.clone(),
            amount: self.amount,
            refunded_amount: self.refunded_amount,
            status: self.status.clone(),
            paid_at: self.paid_at,
        }
    }
}

impl SearchRecord for MerchantRecord {
    open spec fn key(&self) -> Seq<char> {
        self.address@
    }

    fn key_str(&self) -> (r: &str) {
        self.address.as_str()
    }

    fn copy(&self) -> (r: Self) {
        MerchantRecord {
            address: self.address.clone(),
            name: self.name.clone(),
            category: self.category.clone(),
            active: self.active,
            whitelisted: self.whitelisted,
            registered_at: self.registered_at,
        }
    }
}

impl SearchRecord for RefundRecord {
    open spec fn key(&self) -> Seq<char> {
        self.refund_id@
    }

    fn key_str(&self) -> (r: &str) {
        self.refund_id.as_str()
    }

    fn copy(&self) -> (r: Self) {
        RefundRecord {
            refund_id: self.refund_id.clone(),
            order_id: self.order_id.clone(),
            amount: self.amount,
            status: self.status.clone(),
            initiated_by: self.initiated_by.clone(),
            initiated_at: self.initiated_at,
        }
    }
}

// ── Filtering ────────────────────────────────────────────────────────────────

/// The elements of `s` that satisfy `p`, in order.
pub open spec fn keep<T>(s: Seq<T>, p: spec_fn(T) -> bool) -> Seq<T>
    decreases s.len(),
{
    if s.len() == 0 {
        Seq::empty()
    } else {
        keep(s.drop_last(), p) + if p(s.last()) {
            seq![s.last()]
        } else {
            Seq::empty()
        }
    }
}

/// `t` equals `q`'s text, in any ASCII case, where `q` names one.
pub open spec fn text_ok(t: String, q: Option<String>) -> bool {
    q matches Some(a) ==> eq_ignore_ascii_case_spec(t@, a@)
}

/// `v` lies in `[min, max]`, where the bounds are named.
pub open spec fn in_range(v: int, min: Option<int>, max: Option<int>) -> bool {
    &&& (min matches Some(m) ==> v >= m)
    &&& (max matches Some(m) ==> v <= m)
}

pub open spec fn opt_int_i128(o: Option<i128>) -> Option<int> {
    match o {
        Some(v) => Some(v as int),
        None => None,
    }
}

pub open spec fn opt_int_u64(o: Option<u64>) -> Option<int> {
    match o {
        Some(v) => Some(v as int),
        None => None,
    }
}

/// The payment `r` meets the criteria of `q`.
pub open spec fn payment_matches(r: PaymentRecord, q: PaymentSearchQuery) -> bool {
    &&& text_ok(r.merchant_address, q.merchant_address)
    &&& text_ok(r.payer_address, q.payer_address)
    &&& text_ok(r.token_address, q.token_address)
    &&& in_range(r.amount as int, opt_int_i128(q.amount_min), opt_int_i128(q.amount_max))
    &&& in_range(r.paid_at as int, opt_int_u64(q.date_start), opt_int_u64(q.date_end))
    &&& (q.statuses matches Some(v) ==> exists|i: int|
        0 <= i < v@.len() && status_filter_name(#[trigger] v@[i]) == r.status@)
}

/// The merchant `r` meets the criteria of `q`.
pub open spec fn merchant_matches(r: MerchantRecord, q: MerchantSearchQuery) -> bool {
    &&& (q.name_contains matches Some(n) ==> contains_spec(lowercase(r.name@), lowercase(n@)))
    &&& text_ok(r.category, q.category)
    &&& (q.active matches Some(a) ==> r.active == a)
    &&& (q.whitelisted matches Some(w) ==> r.whitelisted == w)
}

/// The refund `r` meets the criteria of `q`.
pub open spec fn refund_matches(r: RefundRecord, q: RefundSearchQuery) -> bool {
    &&& (q.order_id matches Some(o) ==> r.order_id@ == o@)
    &&& text_ok(r.initiated_by, q.initiated_by)
    &&& (q.statuses matches Some(v) ==> exists|i: int|
        0 <= i < v@.len() && eq_ignore_ascii_case_spec(#[trigger] v@[i]@, r.status@))
    &&& in_range(r.amount as int, opt_int_i128(q.amount_min), opt_int_i128(q.amount_max))
    &&& in_range(r.initiated_at as int, opt_int_u64(q.date_start), opt_int_u64(q.date_end))
}

fn text_matches(t: &String, q: &Option<String>) -> (r: bool)
    ensures
        r == text_ok(*t, *q),
{
    match q {
        Some(a) => eq_ignore_ascii_case(t.as_str(), a.as_str()),
        None => true,
    }
}

fn in_range_i128(v: i128, min: Option<i128>, max: Option<i128>) -> (r: bool)
    ensures
        r == in_range(v as int, opt_int_i128(min), opt_int_i128(max)),
{
    match min {
        Some(m) => if v < m {
            return false;
        },
        None => {},
    }
    match max {
        Some(m) => if v > m {
            return false;
        },
        None => {},
    }
    true
}

fn in_range_u64(v: u64, min: Option<u64>, max: Option<u64>) -> (r: bool)
    ensures
        r == in_range(v as int, opt_int_u64(min), opt_int_u64(max)),
{
    match min {
        Some(m) => if v < m {
            return false;
        },
        None => {},
    }
    match max {
        Some(m) => if v > m {
            return false;
        },
        None => {},
    }
    true
}

fn status_listed(v: &Vec<PaymentStatusFilter>, status: &String) -> (b: bool)
    ensures
        b == exists|i: int| 0 <= i < v@.len() && status_filter_name(#[trigger] v@[i]) == status@,
{
    let mut i: usize = 0;
    while i < v.len()
        invariant
            i <= v@.len(),
            forall|j: int| 0 <= j < i ==> status_filter_name(#[trigger] v@[j]) != status@,
        decreases v@.len() - i,
    {
        if crate::table::str_eq(v[i].name(), status.as_str()) {
            assert(status_filter_name(v@[i as int]) == status@);
            return true;
        }
        i = i + 1;
    }
    false
}

fn payment_ok(r: &PaymentRecord, q: &PaymentSearchQuery) -> (b: bool)
    ensures
        b == payment_matches(*r, *q),
{
    if !text_matches(&r.merchant_address, &q.merchant_address) || !text_matches(
        &r.payer_address,
        &q.payer_address,
    ) || !text_matches(&r.token_address, &q.token_address) {
        return false;
    }
    if !in_range_i128(r.amount, q.amount_min, q.amount_max) || !in_range_u64(
        r.paid_at,
        q.date_start,
        q.date_end,
    ) {
        return false;
    }
    match &q.statuses {
        None => true,
        Some(v) => status_listed(v, &r.status),
    }
}

fn merchant_ok(r: &MerchantRecord, q: &MerchantSearchQuery) -> (b: bool)
    ensures
        b == merchant_matches(*r, *q),
{
    match &q.name_contains {
        Some(n) => {
            let hay = to_lowercase(r.name.as_str());
            let needle = to_lowercase(n.as_str());
            if !contains_str(hay.as_str(), needle.as_str()) {
                return false;
            }
        },
        None => {},
    }
    if !text_matches(&r.category, &q.category) {
        return false;
    }
    match q.active {
        Some(a) => if r.active != a {
            return false;
        },
        None => {},
    }
    match q.whitelisted {
        Some(w) => if r.whitelisted != w {
            return false;
        },
        None => {},
    }
    true
}

fn refund_ok(r: &RefundRecord, q: &RefundSearchQuery) -> (b: bool)
    ensures
        b == refund_matches(*r, *q),
{
    match &q.order_id {
        Some(o) => if !crate::table::str_eq(r.order_id.as_str(), o.as_str()) {
            return false;
        },
        None => {},
    }
    if !text_matches(&r.initiated_by, &q.initiated_by) {
        return false;
    }
    match &q.statuses {
        Some(v) => {
            let mut found = false;
            let mut i: usize = 0;
            while i < v.len() && !found
                invariant
                    i <= v@.len(),
                    found ==> exists|j: int|
                        0 <= j < v@.len() && eq_ignore_ascii_case_spec(#[trigger] v@[j]@, r.status@),
                    !found ==> forall|j: int|
                        0 <= j < i ==> !eq_ignore_ascii_case_spec(#[trigger] v@[j]@, r.status@),
                decreases v@.len() - i + (if found { 0int } else { 1int }),
            {
                if eq_ignore_ascii_case(v[i].as_str(), r.status.as_str()) {
                    found = true;
                } else {
                    i = i + 1;
                }
            }
            if !found {
                return false;
            }
        },
        None => {},
    }
    in_range_i128(r.amount, q.amount_min, q.amount_max) && in_range_u64(
        r.initiated_at,
        q.date_start,
        q.date_end,
    )
}

// ── Sorting ──────────────────────────────────────────────────────────────────

/// `s` sorted stably by `key`, descending where asked.
pub open spec fn sorted_by<K: OrderKey, T>(s: Seq<T>, key: spec_fn(T) -> K, descending: bool) -> Seq<T> {
    sort_spec(s.map_values(|r: T| (key(r), r)), descending).map_values(|p: (K, T)| p.1)
}

fn sort_records<K: OrderKey, T: SearchRecord>(items: &Vec<T>, keys: Vec<K>, descending: bool) -> (r:
    Vec<T>)
    requires
        keys@.len() == items@.len(),
    ensures
        r@ == sort_spec(
            Seq::new(items@.len(), |i: int| (keys@[i], items@[i])),
            descending,
        ).map_values(|p: (K, T)| p.1),
{
    let ghost pairs_spec = Seq::new(items@.len(), |i: int| (keys@[i], items@[i]));
    let ghost keys0 = keys@;
    let mut keys = keys;
    let mut pairs: Vec<(K, T)> = Vec::new();
    let mut rev_keys: Vec<K> = Vec::new();
    // Move the keys out back to front, then pair them front to back.
    while keys.len() > 0
        invariant
            keys@ == keys0.take(keys@.len() as int),
            keys@.len() <= keys0.len(),
            rev_keys@.len() == keys0.len() - keys@.len(),
            forall|j: int|
                0 <= j < rev_keys@.len() ==> #[trigger] rev_keys@[j] == keys0[keys0.len() - 1 - j],
        decreases keys@.len(),
    {
        let ghost n = keys@.len();
        let k = keys.pop().unwrap();
        assert(k == keys0[n - 1]);
        rev_keys.push(k);
        assert(keys@ =~= keys0.take(keys@.len() as int));
    }
    let mut i: usize = 0;
    while i < items.len()
        invariant
            keys0.len() == items@.len(),
            i <= items@.len(),
            rev_keys@.len() == keys0.len() - i,
            forall|j: int|
                0 <= j < rev_keys@.len() ==> #[trigger] rev_keys@[j] == keys0[keys0.len() - 1 - j],
            pairs@ == pairs_spec.take(i as int),
            pairs_spec == Seq::new(items@.len(), |i: int| (keys0[i], items@[i])),
        decreases items@.len() - i,
    {
        let k = rev_keys.pop().unwrap();
        assert(k == keys0[i as int]);
        pairs.push((k, items[i].copy()));
        assert(pairs@ =~= pairs_spec.take(i + 1));
        i = i + 1;
    }
    assert(pairs@ =~= pairs_spec);
    let sorted = stable_sort(pairs, descending);
    let mut out: Vec<T> = Vec::new();
    let mut j: usize = 0;
    while j < sorted.len()
        invariant
            j <= sorted@.len(),
            out@ == sorted@.take(j as int).map_values(|p: (K, T)| p.1),
        decreases sorted@.len() - j,
    {
        out.push(sorted[j].1.copy());
        assert(out@ =~= sorted@.take(j + 1).map_values(|p: (K, T)| p.1));
        j = j + 1;
    }
    assert(sorted@.take(j as int) =~= sorted@);
    out
}

// ── Pagination ───────────────────────────────────────────────────────────────

/// Position of the first record of `s` with key `c`.
pub open spec fn first_with_key<T: SearchRecord>(s: Seq<T>, c: Seq<char>) -> Option<int>
    decreases s.len(),
{
    if s.len() == 0 {
        None
    } else if s[0].key() == c {
        Some(0)
    } else {
        match first_with_key(s.drop_first(), c) {
            Some(i) => Some(i + 1),
            None => None,
        }
    }
}

proof fn lemma_first_with_key<T: SearchRecord>(s: Seq<T>, c: Seq<char>, p: int)
    requires
        0 <= p <= s.len(),
        forall|j: int| 0 <= j < p ==> #[trigger] s[j].key() != c,
    ensures
        p < s.len() && s[p].key() == c ==> first_with_key(s, c) == Some(p),
        p == s.len() ==> first_with_key(s, c) is None,
    decreases p,
{
    if p > 0 {
        assert forall|j: int| 0 <= j < p - 1 implies #[trigger] s.drop_first()[j].key() != c by {
            assert(s.drop_first()[j] == s[j + 1]);
        }
        lemma_first_with_key(s.drop_first(), c, p - 1);
    }
}

/// Where a page starts: after the record the cursor names; at the start
/// without a cursor or when it names no record.
pub open spec fn page_start<T: SearchRecord>(s: Seq<T>, cursor: Option<Seq<char>>) -> int {
    match cursor {
        None => 0,
        Some(c) => match first_with_key(s, c) {
            Some(p) => p + 1,
            None => 0,
        },
    }
}

/// The records of the page.
pub open spec fn page_items<T: SearchRecord>(s: Seq<T>, cursor: Option<Seq<char>>, limit: nat) -> Seq<T> {
    let rest = s.skip(page_start(s, cursor));
    if rest.len() <= limit { rest } else { rest.take(limit as int) }
}

/// The cursor of the next page: the key of the page's last record when
/// more follow (the same cursor again when the page is empty), none at the
/// end.
pub open spec fn next_cursor_of<T: SearchRecord>(s: Seq<T>, cursor: Option<Seq<char>>, limit: nat) -> Option<Seq<char>> {
    let rest = s.skip(page_start(s, cursor));
    if rest.len() <= limit {
        None
    } else if limit == 0 {
        cursor
    } else {
        Some(rest[limit - 1].key())
    }
}

/// The text of an optional string.
pub open spec fn opt_text(o: Option<String>) -> Option<Seq<char>> {
    match o {
        Some(s) => Some(s@),
        None => None,
    }
}

/// The page size a query asks for: 20 by default, at most 100.
pub open spec fn page_limit(limit: Option<u32>) -> nat {
    let l: u32 = match limit {
        Some(l) => l,
        None => DEFAULT_PAGE_LIMIT,
    };
    if l < MAX_PAGE_LIMIT { l as nat } else { MAX_PAGE_LIMIT as nat }
}

fn limit_of(limit: Option<u32>) -> (r: usize)
    ensures
        r == page_limit(limit),
{
    let l = match limit {
        Some(l) => l,
        None => DEFAULT_PAGE_LIMIT,
    };
    if l < MAX_PAGE_LIMIT { l as usize } else { MAX_PAGE_LIMIT as usize }
}

/// The page of `items` after the record keyed `cursor` (from the start when
/// there is none or no record has that key), at most `limit` records, and
/// the cursor of the next page.
pub fn paginate<T: SearchRecord>(items: &Vec<T>, cursor: &Option<String>, limit: usize) -> (r: (
    Vec<T>,
    Option<String>,
))
    ensures
        r.0@ == page_items(items@, opt_text(*cursor), limit as nat),
        opt_text(r.1) == next_cursor_of(items@, opt_text(*cursor), limit as nat),
{
    let ghost s = items@;
    let start: usize = match cursor {
        None => 0,
        Some(c) => {
            let mut p: usize = 0;
            let mut found = false;
            while p < items.len() && !found
                invariant
                    p <= s.len(),
                    s == items@,
                    found ==> p < s.len() && s[p as int].key() == c@,
                    forall|j: int| 0 <= j < p ==> #[trigger] s[j].key() != c@,
                decreases s.len() - p + (if found { 0int } else { 1int }),
            {
                if crate::table::str_eq(items[p].key_str(), c.as_str()) {
                    found = true;
                } else {
                    p = p + 1;
                }
            }
            proof {
                lemma_first_with_key(s, c@, p as int);
            }
            if found {
                p + 1
            } else {
                0
            }
        },
    };
    assert(start == page_start(s, opt_text(*cursor)));
    let ghost rest = s.skip(start as int);
    let cap = if items.len() - start <= limit { items.len() - start } else { limit };
    assert(start + cap <= s.len());
    let n = items.len();
    let mut page: Vec<T> = Vec::new();
    let mut i: usize = 0;
    while i < cap
        invariant
            s == items@,
            start <= s.len(),
            rest == s.skip(start as int),
            cap <= rest.len(),
            i <= cap,
            start + cap <= s.len(),
            n == s.len(),
            page@ == rest.take(i as int),
        decreases cap - i,
    {
        page.push(items[start + i].copy());
        assert(page@ =~= rest.take(i + 1));
        i = i + 1;
    }
    assert(page@ =~= page_items(s, opt_text(*cursor), limit as nat));
    let next = if items.len() - start <= limit {
        None
    } else if limit == 0 {
        match cursor {
            Some(c) => Some(c.clone()),
            None => None,
        }
    } else {
        Some(String::from_str(items[start + limit - 1].key_str()))
    };
    (page, next)
}

// ── The service ──────────────────────────────────────────────────────────────

/// The sort key of a payment on a numeric field.
pub open spec fn payment_num_key(r: PaymentRecord, field: PaymentSortField) -> i128 {
    match field {
        PaymentSortField::Amount => r.amount,
        _ => r.paid_at as i128,
    }
}

/// The sort key of a payment on an address field.
pub open spec fn payment_text_key(r: PaymentRecord, field: PaymentSortField) -> String {
    match field {
        PaymentSortField::PayerAddress => r.payer_address,
        _ => r.merchant_address,
    }
}

/// Payments sorted as a query asks: by date unless told otherwise,
/// descending unless ascending is asked for.
pub open spec fn sorted_payments(s: Seq<PaymentRecord>, q: PaymentSearchQuery) -> Seq<PaymentRecord> {
    let field = match q.sort_field {
        Some(f) => f,
        None => PaymentSortField::Date,
    };
    let descending = !(q.sort_order == Some(SortOrder::Ascending));
    match field {
        PaymentSortField::Date | PaymentSortField::Amount => sorted_by(
            s,
            |r: PaymentRecord| payment_num_key(r, field),
            descending,
        ),
        _ => sorted_by(s, |r: PaymentRecord| payment_text_key(r, field), descending),
    }
}

/// Merchants sorted as a query asks: by name unless told otherwise,
/// ascending unless descending is asked for.
pub open spec fn sorted_merchants(s: Seq<MerchantRecord>, q: MerchantSearchQuery) -> Seq<MerchantRecord> {
    let field = match q.sort_field {
        Some(f) => f,
        None => MerchantSortField::Name,
    };
    let descending = q.sort_order == Some(SortOrder::Descending);
    match field {
        MerchantSortField::RegisteredAt => sorted_by(
            s,
            |r: MerchantRecord| r.registered_at as i128,
            descending,
        ),
        MerchantSortField::Name => sorted_by(s, |r: MerchantRecord| r.name, descending),
        MerchantSortField::Category => sorted_by(s, |r: MerchantRecord| r.category, descending),
    }
}

/// Refunds sorted as a query asks: by initiation time unless told
/// otherwise, descending unless ascending is asked for.
pub open spec fn sorted_refunds(s: Seq<RefundRecord>, q: RefundSearchQuery) -> Seq<RefundRecord> {
    let descending = !(q.sort_order == Some(SortOrder::Ascending));
    match q.sort_field {
        Some(RefundSortField::Amount) => sorted_by(s, |r: RefundRecord| r.amount, descending),
        _ => sorted_by(s, |r: RefundRecord| r.initiated_at as i128, descending),
    }
}

/// Search over the three indexes.
pub struct SearchService<P: PaymentIndex, M: MerchantIndex, R: RefundIndex> {
    payments: P,
    merchants: M,
    refunds: R,
}

impl<P: PaymentIndex, M: MerchantIndex, R: RefundIndex> SearchService<P, M, R> {
    pub closed spec fn payment_index(&self) -> P {
        self.payments
    }

    pub closed spec fn merchant_index(&self) -> M {
        self.merchants
    }

    pub closed spec fn refund_index(&self) -> R {
        self.refunds
    }

    /// A service over the three indexes.
    pub fn new(payments: P, merchants: M, refunds: R) -> (s: Self)
        ensures
            s.payment_index() == payments,
            s.merchant_index() == merchants,
            s.refund_index() == refunds,
    {
        SearchService { payments, merchants, refunds }
    }

    /// A page of the payments that match `q`, sorted as `q` asks.
    pub fn search_payments(&self, q: PaymentSearchQuery) -> (r: PaymentPage)
        ensures
            ({
                let matching = keep(
                    self.payment_index().records(),
                    |p: PaymentRecord| payment_matches(p, q),
                );
                let sorted = sorted_payments(matching, q);
                &&& r.total == matching.len()
                &&& r.records@ == page_items(sorted, opt_text(q.cursor), page_limit(q.limit))
                &&& opt_text(r.next_cursor) == next_cursor_of(
                    sorted,
                    opt_text(q.cursor),
                    page_limit(q.limit),
                )
            }),
    {
        let limit = limit_of(q.limit);
        let all = self.payments.all();
        let ghost pred = |p: PaymentRecord| payment_matches(p, q);
        let mut matching: Vec<PaymentRecord> = Vec::new();
        let mut i: usize = 0;
        while i < all.len()
            invariant
                i <= all@.len(),
                matching@ == keep(all@.take(i as int), pred),
                pred == (|p: PaymentRecord| payment_matches(p, q)),
            decreases all@.len() - i,
        {
            assert(all@.take(i + 1).drop_last() =~= all@.take(i as int));
            if payment_ok(&all[i], &q) {
                matching.push(all[i].copy());
            }
            assert(matching@ =~= keep(all@.take(i + 1), pred));
            i = i + 1;
        }
        assert(all@.take(i as int) =~= all@);
        let field = match q.sort_field {
            Some(f) => f,
            None => PaymentSortField::Date,
        };
        let descending = match q.sort_order {
            Some(SortOrder::Ascending) => false,
            _ => true,
        };
        let sorted = match field {
            PaymentSortField::Date | PaymentSortField::Amount => {
                let mut keys: Vec<i128> = Vec::new();
                let mut k: usize = 0;
                while k < matching.len()
                    invariant
                        k <= matching@.len(),
                        keys@.len() == k,
                        forall|j: int|
                            0 <= j < k ==> #[trigger] keys@[j] == payment_num_key(matching@[j], field),
                    decreases matching@.len() - k,
                {
                    let key: i128 = match field {
                        PaymentSortField::Amount => matching[k].amount,
                        _ => matching[k].paid_at as i128,
                    };
                    keys.push(key);
                    k = k + 1;
                }
                let r = sort_records(&matching, keys, descending);
                proof {
                    let f = |p: PaymentRecord| payment_num_key(p, field);
                    assert(Seq::new(matching@.len(), |i: int| (keys@[i], matching@[i]))
                        =~= matching@.map_values(|p: PaymentRecord| (f(p), p)));
                }
                r
            },
            _ => {
                let mut keys: Vec<String> = Vec::new();
                let mut k: usize = 0;
                while k < matching.len()
                    invariant
                        k <= matching@.len(),
                        keys@.len() == k,
                        forall|j: int|
                            0 <= j < k ==> #[trigger] keys@[j] == payment_text_key(matching@[j], field),
                    decreases matching@.len() - k,
                {
                    let key = match field {
                        PaymentSortField::PayerAddress => matching[k].payer_address.clone(),
                        _ => matching[k].merchant_address.clone(),
                    };
                    keys.push(key);
                    k = k + 1;
                }
                let r = sort_records(&matching, keys, descending);
                proof {
                    let f = |p: PaymentRecord| payment_text_key(p, field);
                    assert(Seq::new(matching@.len(), |i: int| (keys@[i], matching@[i]))
                        =~= matching@.map_values(|p: PaymentRecord| (f(p), p)));
                }
                r
            },
        };
        let total = matching.len() as u64;
        let (records, next_cursor) = paginate(&sorted, &q.cursor, limit);
        PaymentPage { records, next_cursor, total }
    }

    /// A page of the merchants that match `q`, sorted as `q` asks.
    pub fn search_merchants(&self, q: MerchantSearchQuery) -> (r: MerchantPage)
        ensures
            ({
                let matching = keep(
                    self.merchant_index().records(),
                    |m: MerchantRecord| merchant_matches(m, q),
                );
                let sorted = sorted_merchants(matching, q);
                &&& r.total == matching.len()
                &&& r.records@ == page_items(sorted, opt_text(q.cursor), page_limit(q.limit))
                &&& opt_text(r.next_cursor) == next_cursor_of(
                    sorted,
                    opt_text(q.cursor),
                    page_limit(q.limit),
                )
            }),
    {
        let limit = limit_of(q.limit);
        let all = self.merchants.all();
        let ghost pred = |m: MerchantRecord| merchant_matches(m, q);
        let mut matching: Vec<MerchantRecord> = Vec::new();
        let mut i: usize = 0;
        while i < all.len()
            invariant
                i <= all@.len(),
                matching@ == keep(all@.take(i as int), pred),
                pred == (|m: MerchantRecord| merchant_matches(m, q)),
            decreases all@.len() - i,
        {
            assert(all@.take(i + 1).drop_last() =~= all@.take(i as int));
            if merchant_ok(&all[i], &q) {
                matching.push(all[i].copy());
            }
            assert(matching@ =~= keep(all@.take(i + 1), pred));
            i = i + 1;
        }
        assert(all@.take(i as int) =~= all@);
        let field = match q.sort_field {
            Some(f) => f,
            None => MerchantSortField::Name,
        };
        let descending = match q.sort_order {
            Some(SortOrder::Descending) => true,
            _ => false,
        };
        let sorted = match field {
            MerchantSortField::RegisteredAt => {
                let mut keys: Vec<i128> = Vec::new();
                let mut k: usize = 0;
                while k < matching.len()
                    invariant
                        k <= matching@.len(),
                        keys@.len() == k,
                        forall|j: int|
                            0 <= j < k ==> #[trigger] keys@[j] == matching@[j].registered_at as i128,
                    decreases matching@.len() - k,
                {
                    keys.push(matching[k].registered_at as i128);
                    k = k + 1;
                }
                let r = sort_records(&matching, keys, descending);
                proof {
                    let f = |m: MerchantRecord| m.registered_at as i128;
                    assert(Seq::new(matching@.len(), |i: int| (keys@[i], matching@[i]))
                        =~= matching@.map_values(|m: MerchantRecord| (f(m), m)));
                }
                r
            },
            MerchantSortField::Name => {
                let mut keys: Vec<String> = Vec::new();
                let mut k: usize = 0;
                while k < matching.len()
                    invariant
                        k <= matching@.len(),
                        keys@.len() == k,
                        forall|j: int| 0 <= j < k ==> #[trigger] keys@[j] == matching@[j].name,
                    decreases matching@.len() - k,
                {
                    keys.push(matching[k].name.clone());
                    k = k + 1;
                }
                let r = sort_records(&matching, keys, descending);
                proof {
                    let f = |m: MerchantRecord| m.name;
                    assert(Seq::new(matching@.len(), |i: int| (keys@[i], matching@[i]))
                        =~= matching@.map_values(|m: MerchantRecord| (f(m), m)));
                }
                r
            },
            MerchantSortField::Category => {
                let mut keys: Vec<String> = Vec::new();
                let mut k: usize = 0;
                while k < matching.len()
                    invariant
                        k <= matching@.len(),
                        keys@.len() == k,
                        forall|j: int| 0 <= j < k ==> #[trigger] keys@[j] == matching@[j].category,
                    decreases matching@.len() - k,
                {
                    keys.push(matching[k].category.clone());
                    k = k + 1;
                }
                let r = sort_records(&matching, keys, descending);
                proof {
                    let f = |m: MerchantRecord| m.category;
                    assert(Seq::new(matching@.len(), |i: int| (keys@[i], matching@[i]))
                        =~= matching@.map_values(|m: MerchantRecord| (f(m), m)));
                }
                r
            },
        };
        let total = matching.len() as u64;
        let (records, next_cursor) = paginate(&sorted, &q.cursor, limit);
        MerchantPage { records, next_cursor, total }
    }

    /// A page of the refunds that match `q`, sorted as `q` asks.
    pub fn search_refunds(&self, q: RefundSearchQuery) -> (r: RefundPage)
        ensures
            ({
                let matching = keep(
                    self.refund_index().records(),
                    |f: RefundRecord| refund_matches(f, q),
                );
                let sorted = sorted_refunds(matching, q);
                &&& r.total == matching.len()
                &&& r.records@ == page_items(sorted, opt_text(q.cursor), page_limit(q.limit))
                &&& opt_text(r.next_cursor) == next_cursor_of(
                    sorted,
                    opt_text(q.cursor),
                    page_limit(q.limit),
                )
            }),
    {
        let limit = limit_of(q.limit);
        let all = self.refunds.all();
        let ghost pred = |f: RefundRecord| refund_matches(f, q);
        let mut matching: Vec<RefundRecord> = Vec::new();
        let mut i: usize = 0;
        while i < all.len()
            invariant
                i <= all@.len(),
                matching@ == keep(all@.take(i as int), pred),
                pred == (|f: RefundRecord| refund_matches(f, q)),
            decreases all@.len() - i,
        {
            assert(all@.take(i + 1).drop_last() =~= all@.take(i as int));
            if refund_ok(&all[i], &q) {
                matching.push(all[i].copy());
            }
            assert(matching@ =~= keep(all@.take(i + 1), pred));
            i = i + 1;
        }
        assert(all@.take(i as int) =~= all@);
        let descending = match q.sort_order {
            Some(SortOrder::Ascending) => false,
            _ => true,
        };
        let sorted = match q.sort_field {
            Some(RefundSortField::Amount) => {
                let mut keys: Vec<i128> = Vec::new();
                let mut k: usize = 0;
                while k < matching.len()
                    invariant
                        k <= matching@.len(),
                        keys@.len() == k,
                        forall|j: int| 0 <= j < k ==> #[trigger] keys@[j] == matching@[j].amount,
                    decreases matching@.len() - k,
                {
                    keys.push(matching[k].amount);
                    k = k + 1;
                }
                let r = sort_records(&matching, keys, descending);
                proof {
                    let f = |m: RefundRecord| m.amount;
                    assert(Seq::new(matching@.len(), |i: int| (keys@[i], matching@[i]))
                        =~= matching@.map_values(|m: RefundRecord| (f(m), m)));
                }
                r
            },
            _ => {
                let mut keys: Vec<i128> = Vec::new();
                let mut k: usize = 0;
                while k < matching.len()
                    invariant
                        k <= matching@.len(),
                        keys@.len() == k,
                        forall|j: int|
                            0 <= j < k ==> #[trigger] keys@[j] == matching@[j].initiated_at as i128,
                    decreases matching@.len() - k,
                {
                    keys.push(matching[k].initiated_at as i128);
                    k = k + 1;
                }
                let r = sort_records(&matching, keys, descending);
                proof {
                    let f = |m: RefundRecord| m.initiated_at as i128;
                    assert(Seq::new(matching@.len(), |i: int| (keys@[i], matching@[i]))
                        =~= matching@.map_values(|m: RefundRecord| (f(m), m)));
                }
                r
            },
        };
        let total = matching.len() as u64;
        let (records, next_cursor) = paginate(&sorted, &q.cursor, limit);
        RefundPage { records, next_cursor, total }
    }
}

/// No two records of `s` share a key.
pub open spec fn keys_distinct<T: SearchRecord>(s: Seq<T>) -> bool {
    forall|i: int, j: int| 0 <= i < j < s.len() ==> #[trigger] s[i].key() != #[trigger] s[j].key()
}

/// Sorting records by a key keeps every record, as many times as it
/// occurs, and orders them by the key.
pub proof fn law_sorted_by_keeps_and_orders<K: OrderKey, T>(
    s: Seq<T>,
    key: spec_fn(T) -> K,
    descending: bool,
)
    ensures
        sorted_by(s, key, descending).len() == s.len(),
        sorted_by(s, key, descending).to_multiset() == s.to_multiset(),
        forall|i: int, j: int|
            0 <= i < j < s.len() ==> if descending {
                K::key_le(
                    key(#[trigger] sorted_by(s, key, descending)[j]),
                    key(#[trigger] sorted_by(s, key, descending)[i]),
                )
            } else {
                K::key_le(key(sorted_by(s, key, descending)[i]), key(sorted_by(s, key, descending)[j]))
            },
{
    let pairs = s.map_values(|r: T| (key(r), r));
    let sp = sort_spec(pairs, descending);
    crate::sort::law_sort_keeps_values(pairs, descending);
    crate::sort::law_sort_orders_and_permutes(pairs, descending);
    assert(pairs.map_values(|p: (K, T)| p.1) =~= s);
    let r = sorted_by(s, key, descending);
    assert(r == sp.map_values(|p: (K, T)| p.1));
    assert forall|i: int| 0 <= i < sp.len() implies #[trigger] sp[i].0 == key(sp[i].1) by {
        assert(pairs.contains(sort_spec(pairs, descending)[i]));
        let k = choose|k: int| 0 <= k < pairs.len() && pairs[k] == sp[i];
        assert(pairs[k] == (key(s[k]), s[k]));
    }
    assert forall|i: int, j: int| 0 <= i < j < s.len() implies if descending {
        K::key_le(key(#[trigger] r[j]), key(#[trigger] r[i]))
    } else {
        K::key_le(key(r[i]), key(r[j]))
    } by {
        assert(r[i] == sp[i].1 && r[j] == sp[j].1);
        assert(sp[i].0 == key(sp[i].1) && sp[j].0 == key(sp[j].1));
    }
}

/// `a` may come before `b` in the order a payment query asks for: by date
/// (the default) or amount as numbers, by address as text, descending
/// unless the query asks for ascending order.
pub open spec fn payment_before(q: PaymentSearchQuery, a: PaymentRecord, b: PaymentRecord) -> bool {
    let field = match q.sort_field {
        Some(f) => f,
        None => PaymentSortField::Date,
    };
    let descending = !(q.sort_order == Some(SortOrder::Ascending));
    match field {
        PaymentSortField::Date | PaymentSortField::Amount => if descending {
            payment_num_key(b, field) <= payment_num_key(a, field)
        } else {
            payment_num_key(a, field) <= payment_num_key(b, field)
        },
        _ => if descending {
            crate::text::lex_le(payment_text_key(b, field)@, payment_text_key(a, field)@)
        } else {
            crate::text::lex_le(payment_text_key(a, field)@, payment_text_key(b, field)@)
        },
    }
}

/// Without a cursor, a payment search returns a sorted prefix of the
/// matching payments: sorting keeps every matching payment and orders them
/// as the query asks, and the page is the first `page_limit` of them (20 by
/// default, at most 100), or all of them when fewer.
pub proof fn law_first_payment_page_is_sorted_prefix(
    matching: Seq<PaymentRecord>,
    q: PaymentSearchQuery,
)
    requires
        q.cursor is None,
    ensures
        sorted_payments(matching, q).len() == matching.len(),
        sorted_payments(matching, q).to_multiset() == matching.to_multiset(),
        forall|i: int, j: int|
            0 <= i < j < matching.len() ==> payment_before(
                q,
                #[trigger] sorted_payments(matching, q)[i],
                #[trigger] sorted_payments(matching, q)[j],
            ),
        page_items(sorted_payments(matching, q), opt_text(q.cursor), page_limit(q.limit)) == if matching.len()
            <= page_limit(q.limit) {
            sorted_payments(matching, q)
        } else {
            sorted_payments(matching, q).take(page_limit(q.limit) as int)
        },
        page_limit(q.limit) <= MAX_PAGE_LIMIT,
{
    let field = match q.sort_field {
        Some(f) => f,
        None => PaymentSortField::Date,
    };
    let descending = !(q.sort_order == Some(SortOrder::Ascending));
    let sorted = sorted_payments(matching, q);
    match field {
        PaymentSortField::Date | PaymentSortField::Amount => {
            law_sorted_by_keeps_and_orders(
                matching,
                |r: PaymentRecord| payment_num_key(r, field),
                descending,
            );
        },
        _ => {
            law_sorted_by_keeps_and_orders(
                matching,
                |r: PaymentRecord| payment_text_key(r, field),
                descending,
            );
        },
    }
    assert(sorted.skip(0) =~= sorted);
}

/// Following the cursor loses and repeats nothing: where records have
/// distinct keys and a page of `limit > 0` records names a next cursor, the
/// next page starts right after this one.
pub proof fn law_next_page_follows<T: SearchRecord>(s: Seq<T>, cursor: Option<Seq<char>>, limit: nat)
    requires
        keys_distinct(s),
        limit > 0,
        next_cursor_of(s, cursor, limit) is Some,
    ensures
        page_start(s, next_cursor_of(s, cursor, limit)) == page_start(s, cursor) + limit,
        page_items(s, cursor, limit).len() == limit,
{
    let start = page_start(s, cursor);
    assert(0 <= start <= s.len()) by {
        if let Some(c) = cursor {
            lemma_first_with_key_bounds(s, c);
        }
    }
    let p = start + limit - 1;
    let c = s[p].key();
    assert(s.skip(start)[limit - 1] == s[p]);
    assert forall|j: int| 0 <= j < p implies #[trigger] s[j].key() != c by {
        assert(s[j].key() != s[p].key());
    }
    lemma_first_with_key(s, c, p);
}

proof fn lemma_first_with_key_bounds<T: SearchRecord>(s: Seq<T>, c: Seq<char>)
    ensures
        first_with_key(s, c) matches Some(p) ==> 0 <= p < s.len() && s[p].key() == c,
    decreases s.len(),
{
    if s.len() > 0 && s[0].key() != c {
        lemma_first_with_key_bounds(s.drop_first(), c);
    }
}

/// A page never holds more than `limit` records, and every record it holds
/// comes from the searched sequence, in the same order, right after the
/// cursor.
pub proof fn law_page_is_a_slice<T: SearchRecord>(s: Seq<T>, cursor: Option<Seq<char>>, limit: nat)
    ensures
        page_items(s, cursor, limit).len() <= limit,
        forall|k: int|
            0 <= k < page_items(s, cursor, limit).len() ==> #[trigger] page_items(
                s,
                cursor,
                limit,
            )[k] == s[page_start(s, cursor) + k],
{
    if let Some(c) = cursor {
        lemma_first_with_key_bounds(s, c);
    }
}

/// A payment page is ordered by the field its query names, read straight
/// off the records: the payment date (the default), the amount, the
/// merchant's address or the payer's address. Each record's field is no
/// greater than that of every later record of the page when the query asks
/// for ascending order, and no smaller otherwise; addresses compare as text.
pub proof fn law_payment_page_order(matching: Seq<PaymentRecord>, q: PaymentSearchQuery)
    ensures
        ({
            let page = page_items(sorted_payments(matching, q), opt_text(q.cursor), page_limit(q.limit));
            let asc = q.sort_order == Some(SortOrder::Ascending);
            forall|i: int, j: int|
                0 <= i < j < page.len() ==> match q.sort_field {
                    Some(PaymentSortField::PayerAddress) => if asc {
                        crate::text::lex_le(#[trigger] page[i].payer_address@, #[trigger] page[j].payer_address@)
                    } else {
                        crate::text::lex_le(page[j].payer_address@, page[i].payer_address@)
                    },
                    Some(PaymentSortField::MerchantAddress) => if asc {
                        crate::text::lex_le(page[i].merchant_address@, page[j].merchant_address@)
                    } else {
                        crate::text::lex_le(page[j].merchant_address@, page[i].merchant_address@)
                    },
                    Some(PaymentSortField::Amount) => if asc {
                        page[i].amount <= page[j].amount
                    } else {
                        page[j].amount <= page[i].amount
                    },
                    _ => if asc {
                        page[i].paid_at <= page[j].paid_at
                    } else {
                        page[j].paid_at <= page[i].paid_at
                    },
                }
        }),
{
    let sorted = sorted_payments(matching, q);
    let cursor = opt_text(q.cursor);
    let limit = page_limit(q.limit);
    let page = page_items(sorted, cursor, limit);
    let field = match q.sort_field {
        Some(f) => f,
        None => PaymentSortField::Date,
    };
    let descending = !(q.sort_order == Some(SortOrder::Ascending));
    match field {
        PaymentSortField::Date | PaymentSortField::Amount => {
            law_sorted_by_keeps_and_orders(
                matching,
                |r: PaymentRecord| payment_num_key(r, field),
                descending,
            );
        },
        _ => {
            law_sorted_by_keeps_and_orders(
                matching,
                |r: PaymentRecord| payment_text_key(r, field),
                descending,
            );
        },
    }
    law_page_is_a_slice(sorted, cursor, limit);
    if let Some(c) = cursor {
        lemma_first_with_key_bounds(sorted, c);
    }
    let start = page_start(sorted, cursor);
    assert(0 <= start <= sorted.len());
    assert forall|i: int, j: int| 0 <= i < j < page.len() implies payment_before(
        q,
        page[i],
        page[j],
    ) by {
        assert(page[i] == sorted[start + i]);
        assert(page[j] == sorted[start + j]);
        assert(start + j < sorted.len());
        assert(payment_before(q, sorted[start + i], sorted[start + j]));
    }
}

} // verus!
