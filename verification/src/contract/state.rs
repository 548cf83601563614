//! The contract's state and its entry points. Each entry point either
//! fails and leaves the state as it was, or applies its whole effect: the
//! storage updates, the token transfers it asks the host to perform, and
//! the events it publishes.
use vstd::prelude::*;
use vstd::string::StringExecFns;

use super::audit::AuditEntry;
use super::error::PaymentError;
use super::helper::{
    byte_len, ed25519_verify_strict, matches_filter, order_id_ok, passes_filter, validate_amount,
    validate_order_id, verify_signature,
};
use super::types::{
    AdminConfig, ContractEvent, GlobalStats, Merchant, MerchantCategory, MultisigPayment, PaymentFilter, PaymentOrder,
    PaymentPage, PaymentRecord, PaymentStatus, RefundRecord, RefundStatus, SortField, SortOrder,
    TokenTransfer,
};
use crate::sort::{sort_spec, stable_sort};
use crate::table::{Keyed, Table};

verus! {

/// Refund window: 30 days, in seconds.
pub const REFUND_WINDOW: u64 = 2_592_000;
/// Default cleanup period: 90 days, in seconds.
pub const DEFAULT_CLEANUP_PERIOD: u64 = 7_776_000;
/// Default multisig expiry: 24 hours, in seconds.
pub const DEFAULT_MULTISIG_EXPIRY: u64 = 86_400;
/// Maximum number of signers of a multisig payment.
pub const MAX_SIGNERS: usize = 10;
/// Shortest multisig expiry an admin may set, in seconds.
pub const MIN_MULTISIG_EXPIRY: u64 = 3600;

/// Whether an address is approved, as the whitelist records it.
#[derive(Clone, Debug)]
pub struct Approval {
    pub address: String,
    pub approved: bool,
}

impl Keyed for Approval {
    type K = str;

    open spec fn key_view(&self) -> Seq<char> {
        self.address@
    }

    fn key_str(&self) -> (r: &str) {
        self.address.as_str()
    }

    fn same_key(a: &str, b: &str) -> (r: bool) {
        crate::table::str_eq(a, b)
    }
}

impl Keyed for Merchant {
    type K = str;

    open spec fn key_view(&self) -> Seq<char> {
        self.address@
    }

    fn key_str(&self) -> (r: &str) {
        self.address.as_str()
    }

    fn same_key(a: &str, b: &str) -> (r: bool) {
        crate::table::str_eq(a, b)
    }
}

impl Keyed for PaymentRecord {
    type K = str;

    open spec fn key_view(&self) -> Seq<char> {
        self.order_id@
    }

    fn key_str(&self) -> (r: &str) {
        self.order_id.as_str()
    }

    fn same_key(a: &str, b: &str) -> (r: bool) {
        crate::table::str_eq(a, b)
    }
}

impl Keyed for RefundRecord {
    type K = str;

    open spec fn key_view(&self) -> Seq<char> {
        self.refund_id@
    }

    fn key_str(&self) -> (r: &str) {
        self.refund_id.as_str()
    }

    fn same_key(a: &str, b: &str) -> (r: bool) {
        crate::table::str_eq(a, b)
    }
}

impl Keyed for MultisigPayment {
    type K = str;

    open spec fn key_view(&self) -> Seq<char> {
        self.payment_id@
    }

    fn key_str(&self) -> (r: &str) {
        self.payment_id.as_str()
    }

    fn same_key(a: &str, b: &str) -> (r: bool) {
        crate::table::str_eq(a, b)
    }
}

/// The payment ids indexed under one address.
pub struct IdList {
    pub owner: String,
    pub ids: Vec<String>,
}

impl Keyed for IdList {
    type K = str;

    open spec fn key_view(&self) -> Seq<char> {
        self.owner@
    }

    fn key_str(&self) -> (r: &str) {
        self.owner.as_str()
    }

    fn same_key(a: &str, b: &str) -> (r: bool) {
        crate::table::str_eq(a, b)
    }
}

/// The ids indexed under each address.
pub open spec fn index_view(t: Table<IdList>) -> Map<Seq<char>, Seq<String>> {
    t.view().map_values(|l: IdList| l.ids@)
}

/// The ids indexed under `owner` (empty when none).
pub open spec fn ids_of(m: Map<Seq<char>, Seq<String>>, owner: Seq<char>) -> Seq<String> {
    if m.dom().contains(owner) {
        m[owner]
    } else {
        Seq::empty()
    }
}

/// `m` with `id` appended to the ids of `owner`.
pub open spec fn index_push(m: Map<Seq<char>, Seq<String>>, owner: Seq<char>, id: String) -> Map<
    Seq<char>,
    Seq<String>,
> {
    m.insert(owner, ids_of(m, owner).push(id))
}

/// Appends `id` to the list of `owner`.
fn push_index(t: &mut Table<IdList>, owner: &str, id: String)
    requires
        old(t).wf(),
    ensures
        final(t).wf(),
        index_view(*final(t)) == index_push(index_view(*old(t)), owner@, id),
{
    let ghost old_view = index_view(*t);
    match t.take(owner) {
        Some(l) => {
            let mut l = l;
            let ghost taken = l.ids@;
            l.ids.push(id);
            let ghost l_final = l;
            assert(l_final.key_view() == owner@);
            t.upsert(l);
            assert(index_view(*t) =~= index_push(old_view, owner@, id));
        },
        None => {
            let mut ids: Vec<String> = Vec::new();
            ids.push(id);
            let l = IdList { owner: String::from_str(owner), ids };
            t.upsert(l);
            assert(ids_of(old_view, owner@) =~= Seq::<String>::empty());
            assert(index_view(*t) =~= index_push(old_view, owner@, id));
        },
    }
}

/// Statistics after one more payment of `amount`; unchanged when a counter
/// would overflow (the update is then dropped, as the stored statistics
/// keep their value).
pub open spec fn stats_after_payment(s: GlobalStats, amount: i128) -> GlobalStats {
    if s.total_payments < u64::MAX && i128::MIN <= s.total_volume + amount <= i128::MAX {
        GlobalStats {
            total_payments: (s.total_payments + 1) as u64,
            total_volume: (s.total_volume + amount) as i128,
            ..s
        }
    } else {
        s
    }
}

/// Statistics after one more executed refund of `amount`, if no counter overflows.
pub open spec fn stats_after_refund(s: GlobalStats, amount: i128) -> Option<GlobalStats> {
    if s.total_refunds < u64::MAX && i128::MIN <= s.total_refund_volume + amount <= i128::MAX {
        Some(
            GlobalStats {
                total_refunds: (s.total_refunds + 1) as u64,
                total_refund_volume: (s.total_refund_volume + amount) as i128,
                ..s
            },
        )
    } else {
        None
    }
}

fn add_payment_stats(s: GlobalStats, amount: i128) -> (r: GlobalStats)
    ensures
        r == stats_after_payment(s, amount),
{
    if s.total_payments == u64::MAX {
        return s;
    }
    match s.total_volume.checked_add(amount) {
        Some(v) => GlobalStats { total_payments: s.total_payments + 1, total_volume: v, ..s },
        None => s,
    }
}

fn add_refund_stats(s: GlobalStats, amount: i128) -> (r: Option<GlobalStats>)
    ensures
        r == stats_after_refund(s, amount),
{
    if s.total_refunds == u64::MAX {
        return None;
    }
    match s.total_refund_volume.checked_add(amount) {
        Some(v) => Some(GlobalStats { total_refunds: s.total_refunds + 1, total_refund_volume: v, ..s }),
        None => None,
    }
}

/// A copy of a merchant.
pub fn copy_merchant(m: &Merchant) -> (r: Merchant)
    ensures
        r == *m,
{
    Merchant {
        address: m.address.clone(),
        name: m.name.clone(),
        description: m.description.clone(),
        contact_info: m.contact_info.clone(),
        category: m.category,
        active: m.active,
        registered_at: m.registered_at,
        signing_public_key: m.signing_public_key,
    }
}

/// A copy of a payment record.
pub fn copy_payment(p: &PaymentRecord) -> (r: PaymentRecord)
    ensures
        r == *p,
{
    PaymentRecord {
        order_id: p.order_id.clone(),
        merchant_address: p.merchant_address.clone(),
        payer: p.payer.clone(),
        token: p.token.clone(),
        amount: p.amount,
        refunded_amount: p.refunded_amount,
        pending_refund_amount: p.pending_refund_amount,
        status: p.status,
        paid_at: p.paid_at,
        description: p.description.clone(),
    }
}

/// A copy of a list of strings.
pub fn copy_strings(v: &Vec<String>) -> (r: Vec<String>)
    ensures
        r@ == v@,
{
    let mut r: Vec<String> = Vec::new();
    let mut i: usize = 0;
    while i < v.len()
        invariant
            i <= v.len(),
            r@ == v@.subrange(0, i as int),
        decreases v.len() - i,
    {
        r.push(v[i].clone());
        i = i + 1;
        assert(r@ =~= v@.subrange(0, i as int));
    }
    assert(r@ =~= v@);
    r
}

/// `s` holds a string equal to `x`.
pub open spec fn holds(s: Seq<String>, x: Seq<char>) -> bool {
    exists|i: int| 0 <= i < s.len() && #[trigger] s[i]@ == x
}

fn contains_string(v: &Vec<String>, x: &str) -> (r: bool)
    ensures
        r == holds(v@, x@),
{
    let mut i: usize = 0;
    while i < v.len()
        invariant
            i <= v.len(),
            forall|j: int| 0 <= j < i ==> #[trigger] v@[j]@ != x@,
        decreases v.len() - i,
    {
        if crate::table::str_eq(v[i].as_str(), x) {
            return true;
        }
        i = i + 1;
    }
    false
}

/// No two strings of `s` are equal.
pub open spec fn distinct_strings(s: Seq<String>) -> bool {
    forall|i: int, j: int| 0 <= i < j < s.len() ==> #[trigger] s[i]@ != #[trigger] s[j]@
}

fn all_distinct(v: &Vec<String>) -> (r: bool)
    ensures
        r == distinct_strings(v@),
{
    let mut j: usize = 0;
    while j < v.len()
        invariant
            j <= v.len(),
            forall|a: int, b: int| 0 <= a < b < j ==> #[trigger] v@[a]@ != #[trigger] v@[b]@,
        decreases v.len() - j,
    {
        let mut i: usize = 0;
        while i < j
            invariant
                i <= j < v.len(),
                forall|a: int| 0 <= a < i ==> #[trigger] v@[a]@ != v@[j as int]@,
            decreases j - i,
        {
            if crate::table::str_eq(v[i].as_str(), v[j].as_str()) {
                return false;
            }
            i = i + 1;
        }
        j = j + 1;
    }
    true
}

/// The contract's state.
pub struct PaymentContract {
    pub(super) contract_address: String,
    pub(super) admin: Option<String>,
    pub(super) merchants: Table<Merchant>,
    pub(super) payments: Table<PaymentRecord>,
    pub(super) refunds: Table<RefundRecord>,
    pub(super) multisigs: Table<MultisigPayment>,
    pub(super) merchant_index: Table<IdList>,
    pub(super) payer_index: Table<IdList>,
    pub(super) global_ids: Vec<String>,
    pub(super) refund_ids: Vec<String>,
    pub(super) stats: GlobalStats,
    pub(super) cleanup_period: u64,
    pub(super) multisig_expiry: u64,
    pub(super) events: Vec<ContractEvent>,
    pub(super) transfers: Vec<TokenTransfer>,
    pub(super) audit: Vec<AuditEntry>,
    pub(super) admin_config: Option<AdminConfig>,
    pub(super) contract_version: u32,
    pub(super) whitelist_enabled: bool,
    pub(super) whitelist: Table<Approval>,
}

impl PaymentContract {
    // ── Model ──────────────────────────────────────────────────────────────

    /// The tables are well formed.
    pub closed spec fn wf(&self) -> bool {
        &&& self.whitelist.wf()
        &&& self.merchants.wf()
        &&& self.payments.wf()
        &&& self.refunds.wf()
        &&& self.multisigs.wf()
        &&& self.merchant_index.wf()
        &&& self.payer_index.wf()
        &&& forall|k: Seq<char>| #[trigger]
            self.payments@.dom().contains(k) ==> refund_cap_ok(self.payments@[k])
        &&& forall|k: Seq<char>| #[trigger]
            self.refunds@.dom().contains(k) ==> self.refunds@[k].amount > 0
    }

    pub closed spec fn contract_address_view(&self) -> String {
        self.contract_address
    }

    pub closed spec fn admin_view(&self) -> Option<String> {
        self.admin
    }

    pub closed spec fn merchants_view(&self) -> Map<Seq<char>, Merchant> {
        self.merchants.view()
    }

    pub closed spec fn payments_view(&self) -> Map<Seq<char>, PaymentRecord> {
        self.payments.view()
    }

    pub closed spec fn refunds_view(&self) -> Map<Seq<char>, RefundRecord> {
        self.refunds.view()
    }

    pub closed spec fn multisigs_view(&self) -> Map<Seq<char>, MultisigPayment> {
        self.multisigs.view()
    }

    /// Payment ids by merchant, in order of payment.
    pub closed spec fn merchant_index_view(&self) -> Map<Seq<char>, Seq<String>> {
        index_view(self.merchant_index)
    }

    /// Payment ids by payer, in order of payment.
    pub closed spec fn payer_index_view(&self) -> Map<Seq<char>, Seq<String>> {
        index_view(self.payer_index)
    }

    /// All payment ids, in order of payment.
    pub closed spec fn global_ids_view(&self) -> Seq<String> {
        self.global_ids@
    }

    /// Ids of executed refunds, in order of execution.
    pub closed spec fn refund_ids_view(&self) -> Seq<String> {
        self.refund_ids@
    }

    pub closed spec fn stats_view(&self) -> GlobalStats {
        self.stats
    }

    pub closed spec fn cleanup_period_view(&self) -> u64 {
        self.cleanup_period
    }

    pub closed spec fn multisig_expiry_view(&self) -> u64 {
        self.multisig_expiry
    }

    /// Events published so far.
    pub closed spec fn events_view(&self) -> Seq<ContractEvent> {
        self.events@
    }

    /// Token transfers requested so far.
    pub closed spec fn transfers_view(&self) -> Seq<TokenTransfer> {
        self.transfers@
    }

    /// Refunds never add up past a payment: in every well-formed state (and
    /// every entry point keeps the state well formed), each payment's
    /// refunded amount and the amount reserved by its outstanding refunds
    /// are non-negative and together at most the payment's amount, and every
    /// refund is of a positive amount.
    pub proof fn law_refund_ledger_in_bounds(&self)
        requires
            self.wf(),
        ensures
            forall|k: Seq<char>| #[trigger]
                self.payments_view().dom().contains(k) ==> refund_cap_ok(self.payments_view()[k]),
            forall|k: Seq<char>| #[trigger]
                self.refunds_view().dom().contains(k) ==> self.refunds_view()[k].amount > 0,
    {
    }

    /// What the views are made of, for the other parts of the contract.
    pub(super) proof fn lemma_tables(&self)
        requires
            self.wf(),
        ensures
            self.merchants.wf(),
            self.payments.wf(),
            self.refunds.wf(),
            self.merchants_view() == self.merchants@,
            self.payments_view() == self.payments@,
            self.refunds_view() == self.refunds@,
            self.global_ids_view() == self.global_ids@,
            self.refund_ids_view() == self.refund_ids@,
    {
    }

    /// Publishes an event; nothing else changes.
    pub(super) fn publish(&mut self, e: ContractEvent)
        ensures
            final(self).events_view() == old(self).events_view().push(e),
            final(self).wf() == old(self).wf(),
            PaymentContract::same_config(old(self), final(self)),
            PaymentContract::same_ledger(old(self), final(self)),
            PaymentContract::same_refunds(old(self), final(self)),
            PaymentContract::same_transfers(old(self), final(self)),
            final(self).merchants_view() == old(self).merchants_view(),
            final(self).multisigs_view() == old(self).multisigs_view(),
            final(self).audit_view() == old(self).audit_view(),
    {
        self.events.push(e);
    }

    /// The stored admin configuration.
    pub closed spec fn admin_config_view(&self) -> Option<AdminConfig> {
        self.admin_config
    }

    /// The stored contract version (0 until one is set).
    pub closed spec fn contract_version_view(&self) -> u32 {
        self.contract_version
    }

    /// Whether the whitelist is enforced.
    pub closed spec fn whitelist_enabled_view(&self) -> bool {
        self.whitelist_enabled
    }

    /// Approval of each address that has one recorded.
    pub closed spec fn whitelist_view(&self) -> Map<Seq<char>, bool> {
        self.whitelist@.map_values(|a: Approval| a.approved)
    }

    /// Nothing but the stored settings changed.
    pub open spec fn same_but_settings(a: &Self, b: &Self) -> bool {
        &&& Self::same_config(a, b)
        &&& Self::same_data(a, b)
        &&& a.audit_view() == b.audit_view()
    }

    /// The stored admin configuration, if any.
    pub fn get_admin_config(&self) -> (r: Option<AdminConfig>)
        ensures
            match (r, self.admin_config_view()) {
                (Some(a), Some(b)) => a.admins@ == b.admins@ && a.threshold == b.threshold,
                (None, None) => true,
                _ => false,
            },
    {
        match &self.admin_config {
            Some(c) => Some(AdminConfig { admins: copy_strings(&c.admins), threshold: c.threshold }),
            None => None,
        }
    }

    /// Stores the admin configuration.
    pub fn set_admin_config(&mut self, config: AdminConfig)
        ensures
            final(self).admin_config_view() == Some(config),
            final(self).contract_version_view() == old(self).contract_version_view(),
            final(self).whitelist_enabled_view() == old(self).whitelist_enabled_view(),
            final(self).whitelist_view() == old(self).whitelist_view(),
            final(self).wf() == old(self).wf(),
            Self::same_but_settings(old(self), final(self)),
    {
        self.admin_config = Some(config);
    }

    /// The stored contract version, 0 when none was set.
    pub fn get_contract_version(&self) -> (r: u32)
        ensures
            r == self.contract_version_view(),
    {
        self.contract_version
    }

    /// Stores the contract version.
    pub fn set_contract_version(&mut self, version: u32)
        ensures
            final(self).contract_version_view() == version,
            final(self).admin_config_view() == old(self).admin_config_view(),
            final(self).whitelist_enabled_view() == old(self).whitelist_enabled_view(),
            final(self).whitelist_view() == old(self).whitelist_view(),
            final(self).wf() == old(self).wf(),
            Self::same_but_settings(old(self), final(self)),
    {
        self.contract_version = version;
    }

    /// Whether the whitelist is enforced (not until it is enabled).
    pub fn is_whitelist_enabled(&self) -> (r: bool)
        ensures
            r == self.whitelist_enabled_view(),
    {
        self.whitelist_enabled
    }

    /// Enables or disables the whitelist.
    pub fn set_whitelist_enabled(&mut self, enabled: bool)
        ensures
            final(self).whitelist_enabled_view() == enabled,
            final(self).admin_config_view() == old(self).admin_config_view(),
            final(self).contract_version_view() == old(self).contract_version_view(),
            final(self).whitelist_view() == old(self).whitelist_view(),
            final(self).wf() == old(self).wf(),
            Self::same_but_settings(old(self), final(self)),
    {
        self.whitelist_enabled = enabled;
    }

    /// Whether `address` is approved; addresses never recorded are not.
    pub fn is_whitelisted(&self, address: &str) -> (r: bool)
        requires
            self.wf(),
        ensures
            r == (self.whitelist_view().dom().contains(address@) && self.whitelist_view()[address@]),
    {
        match self.whitelist.get(address) {
            Some(a) => a.approved,
            None => false,
        }
    }

    /// Records whether `address` is approved.
    pub fn set_whitelisted(&mut self, address: &str, approved: bool)
        requires
            old(self).wf(),
        ensures
            final(self).wf(),
            final(self).whitelist_view() == old(self).whitelist_view().insert(address@, approved),
            final(self).whitelist_enabled_view() == old(self).whitelist_enabled_view(),
            final(self).admin_config_view() == old(self).admin_config_view(),
            final(self).contract_version_view() == old(self).contract_version_view(),
            Self::same_but_settings(old(self), final(self)),
    {
        self.whitelist.upsert(Approval { address: String::from_str(address), approved });
        assert(self.whitelist_view() =~= old(self).whitelist_view().insert(address@, approved));
    }

    /// The audit log, oldest entry first.
    pub closed spec fn audit_view(&self) -> Seq<AuditEntry> {
        self.audit@
    }

    /// Appends `e` to the audit log; nothing else changes.
    pub(super) fn append_audit(&mut self, e: AuditEntry)
        ensures
            final(self).audit_view() == old(self).audit_view().push(e),
            final(self).wf() == old(self).wf(),
            PaymentContract::same_config(old(self), final(self)),
            PaymentContract::same_data(old(self), final(self)),
    {
        self.audit.push(e);
    }

    /// The audit log as stored.
    pub(super) proof fn lemma_audit(&self)
        ensures
            self.audit_view() == self.audit@,
    {
    }

    /// `caller` is the admin.
    pub open spec fn is_admin(&self, caller: Seq<char>) -> bool {
        self.admin_view() matches Some(a) && a@ == caller
    }

    // ── Frames ─────────────────────────────────────────────────────────────

    pub open spec fn same_config(a: &Self, b: &Self) -> bool {
        &&& a.contract_address_view() == b.contract_address_view()
        &&& a.admin_view() == b.admin_view()
        &&& a.cleanup_period_view() == b.cleanup_period_view()
        &&& a.multisig_expiry_view() == b.multisig_expiry_view()
    }

    pub open spec fn same_ledger(a: &Self, b: &Self) -> bool {
        &&& a.payments_view() == b.payments_view()
        &&& a.merchant_index_view() == b.merchant_index_view()
        &&& a.payer_index_view() == b.payer_index_view()
        &&& a.global_ids_view() == b.global_ids_view()
        &&& a.stats_view() == b.stats_view()
    }

    /// The indexes and statistics are unchanged (the payment records may
    /// differ).
    pub open spec fn same_indexes(a: &Self, b: &Self) -> bool {
        &&& a.merchant_index_view() == b.merchant_index_view()
        &&& a.payer_index_view() == b.payer_index_view()
        &&& a.global_ids_view() == b.global_ids_view()
        &&& a.stats_view() == b.stats_view()
    }

    pub open spec fn same_refunds(a: &Self, b: &Self) -> bool {
        &&& a.refunds_view() == b.refunds_view()
        &&& a.refund_ids_view() == b.refund_ids_view()
    }

    pub open spec fn same_transfers(a: &Self, b: &Self) -> bool {
        a.transfers_view() == b.transfers_view()
    }

    pub open spec fn same_events(a: &Self, b: &Self) -> bool {
        a.events_view() == b.events_view()
    }

    /// Everything but the configuration is unchanged.
    pub open spec fn same_data(a: &Self, b: &Self) -> bool {
        &&& a.merchants_view() == b.merchants_view()
        &&& Self::same_ledger(a, b)
        &&& Self::same_refunds(a, b)
        &&& a.multisigs_view() == b.multisigs_view()
        &&& Self::same_transfers(a, b)
        &&& Self::same_events(a, b)
    }

    // ── Construction and logs ──────────────────────────────────────────────

    /// A fresh contract deployed at `contract_address`.
    pub fn new(contract_address: String) -> (c: Self)
        ensures
            c.wf(),
            c.contract_address_view() == contract_address,
            c.admin_view() is None,
            c.merchants_view() == Map::<Seq<char>, Merchant>::empty(),
            c.payments_view() == Map::<Seq<char>, PaymentRecord>::empty(),
            c.refunds_view() == Map::<Seq<char>, RefundRecord>::empty(),
            c.multisigs_view() == Map::<Seq<char>, MultisigPayment>::empty(),
            c.merchant_index_view() == Map::<Seq<char>, Seq<String>>::empty(),
            c.payer_index_view() == Map::<Seq<char>, Seq<String>>::empty(),
            c.global_ids_view() == Seq::<String>::empty(),
            c.refund_ids_view() == Seq::<String>::empty(),
            c.stats_view() == (GlobalStats {
                total_payments: 0,
                total_volume: 0,
                total_refunds: 0,
                total_refund_volume: 0,
            }),
            c.cleanup_period_view() == DEFAULT_CLEANUP_PERIOD,
            c.multisig_expiry_view() == DEFAULT_MULTISIG_EXPIRY,
            c.events_view() == Seq::<ContractEvent>::empty(),
            c.transfers_view() == Seq::<TokenTransfer>::empty(),
            c.audit_view() == Seq::<AuditEntry>::empty(),
            c.admin_config_view() is None,
            c.contract_version_view() == 0,
            !c.whitelist_enabled_view(),
            c.whitelist_view() == Map::<Seq<char>, bool>::empty(),
    {
        let c = PaymentContract {
            contract_address,
            admin: None,
            merchants: Table::new(),
            payments: Table::new(),
            refunds: Table::new(),
            multisigs: Table::new(),
            merchant_index: Table::new(),
            payer_index: Table::new(),
            global_ids: Vec::new(),
            refund_ids: Vec::new(),
            stats: GlobalStats {
                total_payments: 0,
                total_volume: 0,
                total_refunds: 0,
                total_refund_volume: 0,
            },
            cleanup_period: DEFAULT_CLEANUP_PERIOD,
            multisig_expiry: DEFAULT_MULTISIG_EXPIRY,
            events: Vec::new(),
            transfers: Vec::new(),
            audit: Vec::new(),
            admin_config: None,
            contract_version: 0,
            whitelist_enabled: false,
            whitelist: Table::new(),
        };
        assert(c.merchant_index_view() =~= Map::<Seq<char>, Seq<String>>::empty());
        assert(c.payer_index_view() =~= Map::<Seq<char>, Seq<String>>::empty());
        c
    }

    /// The events published so far.
    pub fn events(&self) -> (r: &[ContractEvent])
        ensures
            r@ == self.events_view(),
    {
        self.events.as_slice()
    }

    /// The token transfers requested so far.
    pub fn transfers(&self) -> (r: &[TokenTransfer])
        ensures
            r@ == self.transfers_view(),
    {
        self.transfers.as_slice()
    }

    /// `caller` is the admin.
    pub fn require_admin(&self, caller: &str) -> (r: Result<(), PaymentError>)
        ensures
            r == if self.is_admin(caller@) {
                Ok::<(), PaymentError>(())
            } else {
                Err(PaymentError::Unauthorized)
            },
    {
        match &self.admin {
            Some(a) => if crate::table::str_eq(a.as_str(), caller) {
                Ok(())
            } else {
                Err(PaymentError::Unauthorized)
            },
            None => Err(PaymentError::Unauthorized),
        }
    }

    /// `caller` is the active merchant registered at `merchant_address`.
    pub fn require_merchant(&self, caller: &str, merchant_address: &str) -> (r: Result<
        (),
        PaymentError,
    >)
        requires
            self.wf(),
        ensures
            r == if caller@ != merchant_address@ {
                Err(PaymentError::Unauthorized)
            } else if !self.merchants_view().dom().contains(merchant_address@) {
                Err(PaymentError::MerchantNotFound)
            } else if !self.merchants_view()[merchant_address@].active {
                Err(PaymentError::MerchantInactive)
            } else {
                Ok::<(), PaymentError>(())
            },
    {
        if !crate::table::str_eq(caller, merchant_address) {
            return Err(PaymentError::Unauthorized);
        }
        match self.merchants.get(merchant_address) {
            None => Err(PaymentError::MerchantNotFound),
            Some(m) => if !m.active {
                Err(PaymentError::MerchantInactive)
            } else {
                Ok(())
            },
        }
    }

    // ── Admin ──────────────────────────────────────────────────────────────

    /// One-time admin initialisation.
    pub fn set_admin(&mut self, admin: String) -> (r: Result<(), PaymentError>)
        requires
            old(self).wf(),
        ensures
            final(self).audit_view() == old(self).audit_view(),
            final(self).wf(),
            old(self).admin_view() is Some ==> r == Err::<(), PaymentError>(
                PaymentError::AdminAlreadySet,
            ) && *final(self) == *old(self),
            old(self).admin_view() is None ==> r is Ok && final(self).admin_view() == Some(admin)
                && final(self).events_view() == old(self).events_view().push(
                ContractEvent::AdminSet { admin },
            ) && final(self).merchants_view() == old(self).merchants_view() && Self::same_ledger(
                old(self),
                final(self),
            ) && Self::same_refunds(old(self), final(self)) && Self::same_transfers(
                old(self),
                final(self),
            ) && final(self).multisigs_view() == old(self).multisigs_view()
                && final(self).cleanup_period_view() == old(self).cleanup_period_view()
                && final(self).multisig_expiry_view() == old(self).multisig_expiry_view()
                && final(self).contract_address_view() == old(self).contract_address_view(),
    {
        if self.admin.is_some() {
            return Err(PaymentError::AdminAlreadySet);
        }
        let ev_admin = admin.clone();
        self.admin = Some(admin);
        self.events.push(ContractEvent::AdminSet { admin: ev_admin });
        Ok(())
    }

    // ── Merchants ──────────────────────────────────────────────────────────

    /// Registers a merchant, active from `now`.
    pub fn register_merchant(
        &mut self,
        merchant_address: String,
        name: String,
        description: String,
        contact_info: String,
        category: MerchantCategory,
        now: u64,
    ) -> (r: Result<(), PaymentError>)
        requires
            old(self).wf(),
        ensures
            final(self).audit_view() == old(self).audit_view(),
            final(self).wf(),
            old(self).merchants_view().dom().contains(merchant_address@) ==> r == Err::<
                (),
                PaymentError,
            >(PaymentError::MerchantAlreadyRegistered) && *final(self) == *old(self),
            !old(self).merchants_view().dom().contains(merchant_address@) ==> r is Ok
                && final(self).merchants_view() == old(self).merchants_view().insert(
                merchant_address@,
                Merchant {
                    address: merchant_address,
                    name,
                    description,
                    contact_info,
                    category,
                    active: true,
                    registered_at: now,
                    signing_public_key: None,
                },
            ) && final(self).events_view() == old(self).events_view().push(
                ContractEvent::MerchantRegistered { merchant: merchant_address },
            ) && Self::same_config(old(self), final(self)) && Self::same_ledger(
                old(self),
                final(self),
            ) && Self::same_refunds(old(self), final(self)) && Self::same_transfers(
                old(self),
                final(self),
            ) && final(self).multisigs_view() == old(self).multisigs_view(),
    {
        if self.merchants.contains(merchant_address.as_str()) {
            return Err(PaymentError::MerchantAlreadyRegistered);
        }
        let ev_addr = merchant_address.clone();
        let merchant = Merchant {
            address: merchant_address,
            name,
            description,
            contact_info,
            category,
            active: true,
            registered_at: now,
            signing_public_key: None,
        };
        self.merchants.upsert(merchant);
        self.events.push(ContractEvent::MerchantRegistered { merchant: ev_addr });
        Ok(())
    }

    /// Updates a merchant's profile. The merchant must exist and be active,
    /// and the new name must not be empty.
    pub fn update_merchant(
        &mut self,
        merchant_address: &str,
        name: String,
        description: String,
        contact_info: String,
        category: MerchantCategory,
    ) -> (r: Result<(), PaymentError>)
        requires
            old(self).wf(),
        ensures
            final(self).audit_view() == old(self).audit_view(),
            final(self).wf(),
            r is Err ==> *final(self) == *old(self),
            r == if byte_len(name@) == 0 {
                Err::<(), PaymentError>(PaymentError::InvalidInput)
            } else if !old(self).merchants_view().dom().contains(merchant_address@) {
                Err(PaymentError::MerchantNotFound)
            } else if !old(self).merchants_view()[merchant_address@].active {
                Err(PaymentError::MerchantInactive)
            } else {
                Ok(())
            },
            r is Ok ==> final(self).merchants_view() == old(self).merchants_view().insert(
                merchant_address@,
                Merchant {
                    name,
                    description,
                    contact_info,
                    category,
                    ..old(self).merchants_view()[merchant_address@]
                },
            ) && final(self).events_view().len() == old(self).events_view().len() + 1
                && final(self).events_view().last() is MerchantUpdated
                && final(self).events_view().last()->MerchantUpdated_merchant@ == merchant_address@
                && final(self).events_view().drop_last() == old(self).events_view()
                && Self::same_config(old(self), final(self)) && Self::same_ledger(
                old(self),
                final(self),
            ) && Self::same_refunds(old(self), final(self)) && Self::same_transfers(
                old(self),
                final(self),
            ) && final(self).multisigs_view() == old(self).multisigs_view(),
    {
        if name.as_str().as_bytes().len() == 0 {
            return Err(PaymentError::InvalidInput);
        }
        let found = match self.merchants.get(merchant_address) {
            None => return Err(PaymentError::MerchantNotFound),
            Some(m) => m,
        };
        if !found.active {
            return Err(PaymentError::MerchantInactive);
        }
        let mut m = match self.merchants.take(merchant_address) {
            Some(m) => m,
            None => return Err(PaymentError::MerchantNotFound),
        };
        let ev_addr = m.address.clone();
        m.name = name;
        m.description = description;
        m.contact_info = contact_info;
        m.category = category;
        let ghost removed = self.merchants.view();
        self.merchants.upsert(m);
        proof {
            assert(self.merchants.view() =~= old(self).merchants.view().insert(merchant_address@, m));
        }
        self.events.push(ContractEvent::MerchantUpdated { merchant: ev_addr });
        Ok(())
    }

    /// Deactivates a merchant; the caller must be the merchant itself or the
    /// admin (whether or not an admin is set, the merchant may deactivate
    /// itself).
    pub fn deactivate_merchant(&mut self, caller: &str, merchant_address: &str) -> (r: Result<
        (),
        PaymentError,
    >)
        requires
            old(self).wf(),
        ensures
            final(self).audit_view() == old(self).audit_view(),
            final(self).wf(),
            r is Err ==> *final(self) == *old(self),
            r == if !old(self).is_admin(caller@) && caller@ != merchant_address@ {
                Err::<(), PaymentError>(PaymentError::Unauthorized)
            } else if !old(self).merchants_view().dom().contains(merchant_address@) {
                Err(PaymentError::MerchantNotFound)
            } else {
                Ok(())
            },
            r is Ok ==> final(self).merchants_view() == old(self).merchants_view().insert(
                merchant_address@,
                Merchant { active: false, ..old(self).merchants_view()[merchant_address@] },
            ) && Self::same_config(old(self), final(self)) && Self::same_ledger(
                old(self),
                final(self),
            ) && Self::same_refunds(old(self), final(self)) && Self::same_transfers(
                old(self),
                final(self),
            ) && Self::same_events(old(self), final(self)) && final(self).multisigs_view()
                == old(self).multisigs_view(),
    {
        if self.require_admin(caller).is_err() && !crate::table::str_eq(caller, merchant_address) {
            return Err(PaymentError::Unauthorized);
        }
        let mut m = match self.merchants.take(merchant_address) {
            Some(m) => m,
            None => return Err(PaymentError::MerchantNotFound),
        };
        m.active = false;
        self.merchants.upsert(m);
        proof {
            assert(self.merchants.view() =~= old(self).merchants.view().insert(merchant_address@, m));
        }
        Ok(())
    }

    /// The merchant registered at `merchant_address`.
    pub fn get_merchant(&self, merchant_address: &str) -> (r: Result<Merchant, PaymentError>)
        requires
            self.wf(),
        ensures
            r == if self.merchants_view().dom().contains(merchant_address@) {
                Ok::<Merchant, PaymentError>(self.merchants_view()[merchant_address@])
            } else {
                Err(PaymentError::MerchantNotFound)
            },
    {
        match self.merchants.get(merchant_address) {
            Some(m) => Ok(copy_merchant(m)),
            None => Err(PaymentError::MerchantNotFound),
        }
    }
}

/// The zero public key, which skips signature verification.
pub open spec fn is_zero_key(k: Seq<u8>) -> bool {
    forall|i: int| 0 <= i < k.len() ==> #[trigger] k[i] == 0
}

fn zero_key(k: &[u8; 32]) -> (r: bool)
    ensures
        r == is_zero_key(k@),
{
    let mut i: usize = 0;
    while i < 32
        invariant
            k@.len() == 32,
            i <= 32,
            forall|j: int| 0 <= j < i ==> #[trigger] k@[j] == 0,
        decreases 32 - i,
    {
        if k[i] != 0 {
            return false;
        }
        i = i + 1;
    }
    true
}

/// The order is past its expiry at `now` (`expires_at == 0` never expires).
pub open spec fn order_expired(expires_at: u64, now: u64) -> bool {
    expires_at > 0 && now > expires_at
}

/// The reason a payment is refused, checked in this order, given whether
/// its signature holds.
pub open spec fn payment_error_given(
    c: PaymentContract,
    order: PaymentOrder,
    signature_ok: bool,
    now: u64,
) -> Option<PaymentError> {
    if order.amount <= 0 {
        Some(PaymentError::InvalidAmount)
    } else if !order_id_ok(order.order_id@) {
        Some(PaymentError::InvalidInput)
    } else if c.payments_view().dom().contains(order.order_id@) {
        Some(PaymentError::PaymentAlreadyExists)
    } else if order_expired(order.expires_at, now) {
        Some(PaymentError::PaymentExpired)
    } else if !c.merchants_view().dom().contains(order.merchant_address@) {
        Some(PaymentError::MerchantNotFound)
    } else if !c.merchants_view()[order.merchant_address@].active {
        Some(PaymentError::MerchantInactive)
    } else if !signature_ok {
        Some(PaymentError::InvalidSignature)
    } else {
        None
    }
}

/// The signature check of a payment: skipped for an all-zero key,
/// otherwise strict ed25519 over the order id.
pub open spec fn signature_holds(order: PaymentOrder, signature: Seq<u8>, key: Seq<u8>) -> bool {
    is_zero_key(key) || ed25519_verify_strict(key, vstd::utf8::encode_utf8(order.order_id@), signature)
}

/// The reason a payment is refused, checked in this order.
pub open spec fn payment_error(
    c: PaymentContract,
    order: PaymentOrder,
    signature: Seq<u8>,
    key: Seq<u8>,
    now: u64,
) -> Option<PaymentError> {
    payment_error_given(c, order, signature_holds(order, signature, key), now)
}

/// What a payment of `order` by `payer` at `now` does, refused with `err`
/// or accepted when `err` is `None`.
pub open spec fn payment_post(
    before: PaymentContract,
    after: PaymentContract,
    r: Result<(), PaymentError>,
    payer: String,
    order: PaymentOrder,
    err: Option<PaymentError>,
    now: u64,
) -> bool {
    match err {
        Some(e) => r == Err::<(), PaymentError>(e) && after == before,
        None => r is Ok && after.payments_view() == before.payments_view().insert(
            order.order_id@,
            new_record(order, payer, now),
        ) && after.merchant_index_view() == index_push(
            before.merchant_index_view(),
            order.merchant_address@,
            order.order_id,
        ) && after.payer_index_view() == index_push(before.payer_index_view(), payer@, order.order_id)
            && after.global_ids_view() == before.global_ids_view().push(order.order_id)
            && after.stats_view() == stats_after_payment(before.stats_view(), order.amount)
            && after.transfers_view() == before.transfers_view().push(
            TokenTransfer {
                token: order.token,
                from: payer,
                to: order.merchant_address,
                amount: order.amount,
            },
        ) && after.events_view() == before.events_view().push(
            ContractEvent::PaymentProcessed {
                order_id: order.order_id,
                payer,
                merchant: order.merchant_address,
                amount: order.amount,
            },
        ) && PaymentContract::same_config(&before, &after) && PaymentContract::same_refunds(
            &before,
            &after,
        ) && after.merchants_view() == before.merchants_view() && after.multisigs_view()
            == before.multisigs_view(),
    }
}

/// The record of a payment of `order` by `payer` at `now`.
pub open spec fn new_record(order: PaymentOrder, payer: String, now: u64) -> PaymentRecord {
    PaymentRecord {
        order_id: order.order_id,
        merchant_address: order.merchant_address,
        payer,
        token: order.token,
        amount: order.amount,
        refunded_amount: 0,
        pending_refund_amount: 0,
        status: PaymentStatus::Completed,
        paid_at: now,
        description: order.description,
    }
}

/// The refunds' state after a refund.
pub open spec fn status_after_refund(amount: i128, refunded: i128) -> PaymentStatus {
    if refunded == amount {
        PaymentStatus::FullyRefunded
    } else {
        PaymentStatus::PartiallyRefunded
    }
}

impl PaymentContract {
    /// Records a payment of `payment` by `payer` into the ledger: the record,
    /// the three indexes, the statistics, the transfer and the event.
    fn record_payment(
        &mut self,
        record: PaymentRecord,
        payer_index_owner: &str,
        from: String,
        event: ContractEvent,
    )
        requires
            old(self).wf(),
            refund_cap_ok(record),
        ensures
            final(self).audit_view() == old(self).audit_view(),
            final(self).wf(),
            final(self).payments_view() == old(self).payments_view().insert(
                record.order_id@,
                record,
            ),
            final(self).merchant_index_view() == index_push(
                old(self).merchant_index_view(),
                record.merchant_address@,
                record.order_id,
            ),
            final(self).payer_index_view() == index_push(
                old(self).payer_index_view(),
                payer_index_owner@,
                record.order_id,
            ),
            final(self).global_ids_view() == old(self).global_ids_view().push(record.order_id),
            final(self).stats_view() == stats_after_payment(old(self).stats_view(), record.amount),
            final(self).transfers_view() == old(self).transfers_view().push(
                TokenTransfer {
                    token: record.token,
                    from,
                    to: record.merchant_address,
                    amount: record.amount,
                },
            ),
            final(self).events_view() == old(self).events_view().push(event),
            Self::same_config(old(self), final(self)),
            Self::same_refunds(old(self), final(self)),
            final(self).merchants_view() == old(self).merchants_view(),
            final(self).multisigs_view() == old(self).multisigs_view(),
    {
        let ghost rec = record;
        self.transfers.push(
            TokenTransfer {
                token: record.token.clone(),
                from,
                to: record.merchant_address.clone(),
                amount: record.amount,
            },
        );
        push_index(&mut self.merchant_index, record.merchant_address.as_str(), record.order_id.clone());
        push_index(&mut self.payer_index, payer_index_owner, record.order_id.clone());
        self.global_ids.push(record.order_id.clone());
        self.stats = add_payment_stats(self.stats, record.amount);
        self.payments.upsert(record);
        self.events.push(event);
    }

    // ── Payments ───────────────────────────────────────────────────────────

    /// Processes `order` paid by `payer` at ledger time `now`, where
    /// `signature_ok` says whether its signature holds. On success the
    /// payer's tokens go to the merchant, the payment is recorded and
    /// indexed, and the statistics count it.
    pub fn process_payment_checked(
        &mut self,
        payer: String,
        order: PaymentOrder,
        signature_ok: bool,
        now: u64,
    ) -> (r: Result<(), PaymentError>)
        requires
            old(self).wf(),
        ensures
            final(self).audit_view() == old(self).audit_view(),
            final(self).wf(),
            payment_post(
                *old(self),
                *final(self),
                r,
                payer,
                order,
                payment_error_given(*old(self), order, signature_ok, now),
                now,
            ),
    {
        validate_amount(order.amount)?;
        validate_order_id(order.order_id.as_str())?;
        if self.payments.contains(order.order_id.as_str()) {
            return Err(PaymentError::PaymentAlreadyExists);
        }
        if order.expires_at > 0 && now > order.expires_at {
            return Err(PaymentError::PaymentExpired);
        }
        match self.merchants.get(order.merchant_address.as_str()) {
            None => return Err(PaymentError::MerchantNotFound),
            Some(m) => {
                if !m.active {
                    return Err(PaymentError::MerchantInactive);
                }
            },
        }
        if !signature_ok {
            return Err(PaymentError::InvalidSignature);
        }
        let event = ContractEvent::PaymentProcessed {
            order_id: order.order_id.clone(),
            payer: payer.clone(),
            merchant: order.merchant_address.clone(),
            amount: order.amount,
        };
        let record = PaymentRecord {
            order_id: order.order_id,
            merchant_address: order.merchant_address,
            payer: payer.clone(),
            token: order.token,
            amount: order.amount,
            refunded_amount: 0,
            pending_refund_amount: 0,
            status: PaymentStatus::Completed,
            paid_at: now,
            description: order.description,
        };
        let owner = payer.clone();
        self.record_payment(record, owner.as_str(), payer, event);
        Ok(())
    }

    /// Processes `order` paid by `payer` at ledger time `now`. Unless the
    /// merchant's public key is all zeros, `signature` must be a valid
    /// ed25519 signature of the order id under that key.
    pub fn process_payment_with_signature(
        &mut self,
        payer: String,
        order: PaymentOrder,
        signature: [u8; 64],
        merchant_public_key: [u8; 32],
        now: u64,
    ) -> (r: Result<(), PaymentError>)
        requires
            old(self).wf(),
        ensures
            final(self).audit_view() == old(self).audit_view(),
            final(self).wf(),
            payment_post(
                *old(self),
                *final(self),
                r,
                payer,
                order,
                payment_error(*old(self), order, signature@, merchant_public_key@, now),
                now,
            ),
    {
        let signature_ok = zero_key(&merchant_public_key) || verify_signature(
            &merchant_public_key,
            order.order_id.as_str(),
            &signature,
        ).is_ok();
        self.process_payment_checked(payer, order, signature_ok, now)
    }

    /// The payment `order_id`, for its payer, its merchant or the admin.
    pub fn get_payment_by_id(&self, caller: &str, order_id: &str) -> (r: Result<
        PaymentRecord,
        PaymentError,
    >)
        requires
            self.wf(),
        ensures
            r == if !self.payments_view().dom().contains(order_id@) {
                Err::<PaymentRecord, PaymentError>(PaymentError::PaymentNotFound)
            } else if caller@ != self.payments_view()[order_id@].payer@ && caller@
                != self.payments_view()[order_id@].merchant_address@ && !self.is_admin(caller@) {
                Err(PaymentError::Unauthorized)
            } else {
                Ok(self.payments_view()[order_id@])
            },
    {
        let record = match self.payments.get(order_id) {
            None => return Err(PaymentError::PaymentNotFound),
            Some(r) => r,
        };
        if !crate::table::str_eq(caller, record.payer.as_str()) && !crate::table::str_eq(
            caller,
            record.merchant_address.as_str(),
        ) && self.require_admin(caller).is_err() {
            return Err(PaymentError::Unauthorized);
        }
        Ok(copy_payment(record))
    }

    /// Refund status changes go through the refund workflow only: this
    /// entry point always fails.
    pub fn update_payment_status(&mut self, caller: &str, order_id: &str, refunded_amount: i128) -> (r:
        Result<(), PaymentError>)
        ensures
            r == Err::<(), PaymentError>(PaymentError::InvalidInput),
            *final(self) == *old(self),
    {
        Err(PaymentError::InvalidInput)
    }

    /// Removes the record of payment `order_id` (admin only).
    pub fn archive_payment_record(&mut self, admin: &str, order_id: &str) -> (r: Result<
        (),
        PaymentError,
    >)
        requires
            old(self).wf(),
        ensures
            final(self).audit_view() == old(self).audit_view(),
            final(self).wf(),
            r == if !old(self).is_admin(admin@) {
                Err::<(), PaymentError>(PaymentError::Unauthorized)
            } else if !old(self).payments_view().dom().contains(order_id@) {
                Err(PaymentError::PaymentNotFound)
            } else {
                Ok(())
            },
            r is Err ==> *final(self) == *old(self),
            r is Ok ==> final(self).payments_view() == old(self).payments_view().remove(order_id@)
                && final(self).merchant_index_view() == old(self).merchant_index_view()
                && final(self).payer_index_view() == old(self).payer_index_view()
                && final(self).global_ids_view() == old(self).global_ids_view()
                && final(self).stats_view() == old(self).stats_view() && Self::same_config(
                old(self),
                final(self),
            ) && Self::same_refunds(old(self), final(self)) && Self::same_transfers(
                old(self),
                final(self),
            ) && Self::same_events(old(self), final(self)) && final(self).merchants_view()
                == old(self).merchants_view() && final(self).multisigs_view()
                == old(self).multisigs_view(),
    {
        self.require_admin(admin)?;
        if !self.payments.contains(order_id) {
            return Err(PaymentError::PaymentNotFound);
        }
        let _ = self.payments.take(order_id);
        Ok(())
    }

    /// Sets the payment cleanup period (admin only, non-zero).
    pub fn set_payment_cleanup_period(&mut self, admin: &str, period: u64) -> (r: Result<
        (),
        PaymentError,
    >)
        requires
            old(self).wf(),
        ensures
            final(self).audit_view() == old(self).audit_view(),
            final(self).wf(),
            r == if !old(self).is_admin(admin@) {
                Err::<(), PaymentError>(PaymentError::Unauthorized)
            } else if period == 0 {
                Err(PaymentError::InvalidInput)
            } else {
                Ok(())
            },
            r is Err ==> *final(self) == *old(self),
            r is Ok ==> final(self).cleanup_period_view() == period && Self::same_data(
                old(self),
                final(self),
            ) && final(self).admin_view() == old(self).admin_view()
                && final(self).multisig_expiry_view() == old(self).multisig_expiry_view()
                && final(self).contract_address_view() == old(self).contract_address_view(),
    {
        self.require_admin(admin)?;
        if period == 0 {
            return Err(PaymentError::InvalidInput);
        }
        self.cleanup_period = period;
        Ok(())
    }

    /// Sets the default multisig expiry (admin only, at least one hour).
    pub fn set_default_multisig_expiry(&mut self, admin: &str, expiry: u64) -> (r: Result<
        (),
        PaymentError,
    >)
        requires
            old(self).wf(),
        ensures
            final(self).audit_view() == old(self).audit_view(),
            final(self).wf(),
            r == if !old(self).is_admin(admin@) {
                Err::<(), PaymentError>(PaymentError::Unauthorized)
            } else if expiry < MIN_MULTISIG_EXPIRY {
                Err(PaymentError::InvalidInput)
            } else {
                Ok(())
            },
            r is Err ==> *final(self) == *old(self),
            r is Ok ==> final(self).multisig_expiry_view() == expiry && Self::same_data(
                old(self),
                final(self),
            ) && final(self).admin_view() == old(self).admin_view()
                && final(self).cleanup_period_view() == old(self).cleanup_period_view()
                && final(self).contract_address_view() == old(self).contract_address_view(),
    {
        self.require_admin(admin)?;
        if expiry < MIN_MULTISIG_EXPIRY {
            return Err(PaymentError::InvalidInput);
        }
        self.multisig_expiry = expiry;
        Ok(())
    }
}

/// The refund window has closed at `now` for a payment made at `paid_at`.
pub open spec fn refund_window_closed(paid_at: u64, now: u64) -> bool {
    now > paid_at + REFUND_WINDOW
}

/// A payment's refund ledger is in bounds: its refunded amount and the
/// amount reserved by its outstanding (pending or approved) refunds are
/// non-negative and, once either is non-zero, add up to at most the
/// payment's amount.
pub open spec fn refund_cap_ok(p: PaymentRecord) -> bool {
    &&& 0 <= p.refunded_amount
    &&& 0 <= p.pending_refund_amount
    &&& (p.refunded_amount + p.pending_refund_amount == 0 || p.refunded_amount
        + p.pending_refund_amount <= p.amount)
}

/// The reserved amount after an outstanding refund of `amount` leaves it
/// (executed or rejected); it never drops below zero.
pub open spec fn release_reserved(reserved: i128, amount: i128) -> i128 {
    if reserved >= amount {
        (reserved - amount) as i128
    } else {
        0
    }
}

/// The payments after outstanding refund `f` leaves: its payment's
/// reservation is released.
pub open spec fn released(payments: Map<Seq<char>, PaymentRecord>, f: RefundRecord) -> Map<
    Seq<char>,
    PaymentRecord,
> {
    payments.insert(
        f.order_id@,
        PaymentRecord {
            pending_refund_amount: release_reserved(
                payments[f.order_id@].pending_refund_amount,
                f.amount,
            ),
            ..payments[f.order_id@]
        },
    )
}

/// The reason a refund request is refused, checked in this order.
pub open spec fn initiate_refund_error(
    c: PaymentContract,
    caller: Seq<char>,
    refund_id: Seq<char>,
    order_id: Seq<char>,
    amount: i128,
    now: u64,
) -> Option<PaymentError> {
    if amount <= 0 {
        Some(PaymentError::InvalidAmount)
    } else if !c.payments_view().dom().contains(order_id) {
        Some(PaymentError::PaymentNotFound)
    } else if caller != c.payments_view()[order_id].payer@ && caller
        != c.payments_view()[order_id].merchant_address@ {
        Some(PaymentError::Unauthorized)
    } else if refund_window_closed(c.payments_view()[order_id].paid_at, now) {
        Some(PaymentError::RefundWindowExpired)
    } else if c.payments_view()[order_id].refunded_amount
        + c.payments_view()[order_id].pending_refund_amount + amount
        > c.payments_view()[order_id].amount {
        Some(PaymentError::RefundAmountExceedsPayment)
    } else if c.refunds_view().dom().contains(refund_id) {
        Some(PaymentError::RefundAlreadyExists)
    } else {
        None
    }
}

/// The reason an approval or rejection by `caller` is refused.
pub open spec fn review_refund_error(c: PaymentContract, caller: Seq<char>, refund_id: Seq<char>) -> Option<
    PaymentError,
> {
    if !c.refunds_view().dom().contains(refund_id) {
        Some(PaymentError::RefundNotFound)
    } else if !c.payments_view().dom().contains(c.refunds_view()[refund_id].order_id@) {
        Some(PaymentError::PaymentNotFound)
    } else if caller != c.payments_view()[c.refunds_view()[refund_id].order_id@].merchant_address@
        && !c.is_admin(caller) {
        Some(PaymentError::Unauthorized)
    } else if c.refunds_view()[refund_id].status != RefundStatus::Pending {
        Some(PaymentError::RefundAlreadyCompleted)
    } else {
        None
    }
}

/// The reason an execution of refund `refund_id` by `caller` is refused.
pub open spec fn execute_refund_error(c: PaymentContract, caller: Seq<char>, refund_id: Seq<char>) -> Option<
    PaymentError,
> {
    if !c.refunds_view().dom().contains(refund_id) {
        Some(PaymentError::RefundNotFound)
    } else if c.refunds_view()[refund_id].status != RefundStatus::Approved {
        Some(PaymentError::RefundNotApproved)
    } else if !c.payments_view().dom().contains(c.refunds_view()[refund_id].order_id@) {
        Some(PaymentError::PaymentNotFound)
    } else if caller != c.payments_view()[c.refunds_view()[refund_id].order_id@].merchant_address@ {
        Some(PaymentError::Unauthorized)
    } else {
        let p = c.payments_view()[c.refunds_view()[refund_id].order_id@];
        let amount = c.refunds_view()[refund_id].amount;
        if p.refunded_amount + amount > p.amount {
            Some(PaymentError::RefundAmountExceedsPayment)
        } else if !(i128::MIN <= p.refunded_amount + amount <= i128::MAX) || stats_after_refund(
            c.stats_view(),
            amount,
        ) is None {
            Some(PaymentError::ArithmeticError)
        } else {
            None
        }
    }
}

impl PaymentContract {
    // ── Refunds ────────────────────────────────────────────────────────────

    /// Requests a refund of `amount` on payment `order_id`, by its payer or
    /// its merchant, within the refund window. The request is refused when
    /// the payment's refunded amount, the amount its outstanding refunds
    /// reserve and `amount` together exceed it; an accepted request reserves
    /// `amount` on the payment.
    pub fn initiate_refund(
        &mut self,
        caller: String,
        refund_id: String,
        order_id: &str,
        amount: i128,
        reason: String,
        now: u64,
    ) -> (r: Result<(), PaymentError>)
        requires
            old(self).wf(),
        ensures
            final(self).audit_view() == old(self).audit_view(),
            final(self).wf(),
            match initiate_refund_error(*old(self), caller@, refund_id@, order_id@, amount, now) {
                Some(e) => r == Err::<(), PaymentError>(e) && *final(self) == *old(self),
                None => r is Ok && final(self).refunds_view() == old(self).refunds_view().insert(
                    refund_id@,
                    RefundRecord {
                        refund_id,
                        order_id: old(self).payments_view()[order_id@].order_id,
                        amount,
                        reason,
                        status: RefundStatus::Pending,
                        initiated_by: caller,
                        initiated_at: now,
                    },
                ) && final(self).payments_view() == old(self).payments_view().insert(
                    order_id@,
                    PaymentRecord {
                        pending_refund_amount: (old(self).payments_view()[order_id@].pending_refund_amount
                            + amount) as i128,
                        ..old(self).payments_view()[order_id@]
                    },
                ) && final(self).events_view() == old(self).events_view().push(
                    ContractEvent::RefundInitiated { refund_id, caller, amount },
                ) && final(self).refund_ids_view() == old(self).refund_ids_view()
                    && Self::same_config(old(self), final(self)) && Self::same_indexes(
                    old(self),
                    final(self),
                ) && Self::same_transfers(old(self), final(self)) && final(self).merchants_view()
                    == old(self).merchants_view() && final(self).multisigs_view()
                    == old(self).multisigs_view(),
            },
    {
        validate_amount(amount)?;
        let record = match self.payments.get(order_id) {
            None => return Err(PaymentError::PaymentNotFound),
            Some(p) => p,
        };
        if !crate::table::str_eq(caller.as_str(), record.payer.as_str()) && !crate::table::str_eq(
            caller.as_str(),
            record.merchant_address.as_str(),
        ) {
            return Err(PaymentError::Unauthorized);
        }
        if now > record.paid_at && now - record.paid_at > REFUND_WINDOW {
            return Err(PaymentError::RefundWindowExpired);
        }
        proof {
            assert(self.payments@.dom().contains(order_id@));
        }
        let total = match record.refunded_amount.checked_add(record.pending_refund_amount) {
            Some(t) => t.checked_add(amount),
            None => None,
        };
        let exceeds = match total {
            Some(t) => t > record.amount,
            None => true,
        };
        if exceeds {
            return Err(PaymentError::RefundAmountExceedsPayment);
        }
        if self.refunds.contains(refund_id.as_str()) {
            return Err(PaymentError::RefundAlreadyExists);
        }
        let reserved = record.pending_refund_amount + amount;
        let event = ContractEvent::RefundInitiated {
            refund_id: refund_id.clone(),
            caller: caller.clone(),
            amount,
        };
        let refund = RefundRecord {
            refund_id,
            order_id: record.order_id.clone(),
            amount,
            reason,
            status: RefundStatus::Pending,
            initiated_by: caller,
            initiated_at: now,
        };
        let mut payment = match self.payments.take(order_id) {
            Some(p) => p,
            None => return Err(PaymentError::PaymentNotFound),
        };
        payment.pending_refund_amount = reserved;
        self.payments.upsert(payment);
        proof {
            assert(self.payments.view() =~= old(self).payments.view().insert(order_id@, payment));
        }
        self.refunds.upsert(refund);
        self.events.push(event);
        Ok(())
    }

    fn review_refund(&mut self, caller: &str, refund_id: &str, approve: bool) -> (r: Result<
        (),
        PaymentError,
    >)
        requires
            old(self).wf(),
        ensures
            final(self).audit_view() == old(self).audit_view(),
            final(self).wf(),
            match review_refund_error(*old(self), caller@, refund_id@) {
                Some(e) => r == Err::<(), PaymentError>(e) && *final(self) == *old(self),
                None => r is Ok && final(self).refunds_view() == old(self).refunds_view().insert(
                    refund_id@,
                    RefundRecord {
                        status: if approve {
                            RefundStatus::Approved
                        } else {
                            RefundStatus::Rejected
                        },
                        ..old(self).refunds_view()[refund_id@]
                    },
                ) && final(self).events_view().len() == old(self).events_view().len() + 1
                    && final(self).events_view().drop_last() == old(self).events_view() && (if approve {
                    final(self).events_view().last() is RefundApproved
                        && final(self).events_view().last()->RefundApproved_refund_id@ == refund_id@
                } else {
                    final(self).events_view().last() is RefundRejected
                        && final(self).events_view().last()->RefundRejected_refund_id@ == refund_id@
                }) && final(self).refund_ids_view() == old(self).refund_ids_view()
                    && final(self).payments_view() == (if approve {
                    old(self).payments_view()
                } else {
                    released(old(self).payments_view(), old(self).refunds_view()[refund_id@])
                }) && Self::same_config(old(self), final(self)) && Self::same_indexes(
                    old(self),
                    final(self),
                ) && Self::same_transfers(old(self), final(self)) && final(self).merchants_view()
                    == old(self).merchants_view() && final(self).multisigs_view()
                    == old(self).multisigs_view(),
            },
    {
        let refund = match self.refunds.get(refund_id) {
            None => return Err(PaymentError::RefundNotFound),
            Some(f) => f,
        };
        let record = match self.payments.get(refund.order_id.as_str()) {
            None => return Err(PaymentError::PaymentNotFound),
            Some(p) => p,
        };
        if !crate::table::str_eq(caller, record.merchant_address.as_str()) && self.require_admin(
            caller,
        ).is_err() {
            return Err(PaymentError::Unauthorized);
        }
        if refund.status != RefundStatus::Pending {
            return Err(PaymentError::RefundAlreadyCompleted);
        }
        if !approve {
            let amount = refund.amount;
            let reserved = if record.pending_refund_amount >= amount {
                record.pending_refund_amount - amount
            } else {
                0
            };
            let ghost order_key = refund.order_id@;
            let mut payment = match self.payments.take(refund.order_id.as_str()) {
                Some(p) => p,
                None => return Err(PaymentError::PaymentNotFound),
            };
            payment.pending_refund_amount = reserved;
            self.payments.upsert(payment);
            proof {
                assert(self.payments.view() =~= old(self).payments.view().insert(order_key, payment));
            }
        }
        let mut refund = match self.refunds.take(refund_id) {
            Some(f) => f,
            None => return Err(PaymentError::RefundNotFound),
        };
        let ev_id = refund.refund_id.clone();
        refund.status = if approve {
            RefundStatus::Approved
        } else {
            RefundStatus::Rejected
        };
        self.refunds.upsert(refund);
        proof {
            assert(self.refunds.view() =~= old(self).refunds.view().insert(refund_id@, refund));
        }
        if approve {
            self.events.push(ContractEvent::RefundApproved { refund_id: ev_id });
        } else {
            self.events.push(ContractEvent::RefundRejected { refund_id: ev_id });
        }
        Ok(())
    }

    /// Approves a pending refund; the caller must be the merchant or the admin.
    pub fn approve_refund(&mut self, caller: &str, refund_id: &str) -> (r: Result<(), PaymentError>)
        requires
            old(self).wf(),
        ensures
            final(self).audit_view() == old(self).audit_view(),
            final(self).wf(),
            match review_refund_error(*old(self), caller@, refund_id@) {
                Some(e) => r == Err::<(), PaymentError>(e) && *final(self) == *old(self),
                None => r is Ok && final(self).refunds_view() == old(self).refunds_view().insert(
                    refund_id@,
                    RefundRecord {
                        status: RefundStatus::Approved,
                        ..old(self).refunds_view()[refund_id@]
                    },
                ) && final(self).events_view().len() == old(self).events_view().len() + 1
                    && final(self).events_view().drop_last() == old(self).events_view()
                    && final(self).events_view().last() is RefundApproved
                    && final(self).events_view().last()->RefundApproved_refund_id@ == refund_id@
                    && final(self).refund_ids_view() == old(self).refund_ids_view()
                    && Self::same_config(old(self), final(self)) && Self::same_ledger(
                    old(self),
                    final(self),
                ) && Self::same_transfers(old(self), final(self)) && final(self).merchants_view()
                    == old(self).merchants_view() && final(self).multisigs_view()
                    == old(self).multisigs_view(),
            },
    {
        self.review_refund(caller, refund_id, true)
    }

    /// Rejects a pending refund; the caller must be the merchant or the admin.
    /// The amount the refund reserved on its payment is released.
    pub fn reject_refund(&mut self, caller: &str, refund_id: &str) -> (r: Result<(), PaymentError>)
        requires
            old(self).wf(),
        ensures
            final(self).audit_view() == old(self).audit_view(),
            final(self).wf(),
            match review_refund_error(*old(self), caller@, refund_id@) {
                Some(e) => r == Err::<(), PaymentError>(e) && *final(self) == *old(self),
                None => r is Ok && final(self).refunds_view() == old(self).refunds_view().insert(
                    refund_id@,
                    RefundRecord {
                        status: RefundStatus::Rejected,
                        ..old(self).refunds_view()[refund_id@]
                    },
                ) && final(self).events_view().len() == old(self).events_view().len() + 1
                    && final(self).events_view().drop_last() == old(self).events_view()
                    && final(self).events_view().last() is RefundRejected
                    && final(self).events_view().last()->RefundRejected_refund_id@ == refund_id@
                    && final(self).refund_ids_view() == old(self).refund_ids_view()
                    && final(self).payments_view() == released(
                    old(self).payments_view(),
                    old(self).refunds_view()[refund_id@],
                ) && Self::same_config(old(self), final(self)) && Self::same_indexes(
                    old(self),
                    final(self),
                ) && Self::same_transfers(old(self), final(self)) && final(self).merchants_view()
                    == old(self).merchants_view() && final(self).multisigs_view()
                    == old(self).multisigs_view(),
            },
    {
        self.review_refund(caller, refund_id, false)
    }

    /// Executes an approved refund, by the payment's merchant, unless the
    /// payment's refunded amount would then exceed it: the tokens go back
    /// from the merchant to the payer, the refund's reservation turns into
    /// refunded amount, the payment's status follows, the refund completes
    /// and the statistics count it.
    pub fn execute_refund(&mut self, caller: &str, refund_id: &str) -> (r: Result<(), PaymentError>)
        requires
            old(self).wf(),
        ensures
            final(self).audit_view() == old(self).audit_view(),
            final(self).wf(),
            match execute_refund_error(*old(self), caller@, refund_id@) {
                Some(e) => r == Err::<(), PaymentError>(e) && *final(self) == *old(self),
                None => {
                    let f = old(self).refunds_view()[refund_id@];
                    let p = old(self).payments_view()[f.order_id@];
                    let total = (p.refunded_amount + f.amount) as i128;
                    &&& r is Ok
                    &&& final(self).payments_view() == old(self).payments_view().insert(
                        f.order_id@,
                        PaymentRecord {
                            refunded_amount: total,
                            pending_refund_amount: release_reserved(
                                p.pending_refund_amount,
                                f.amount,
                            ),
                            status: status_after_refund(p.amount, total),
                            ..p
                        },
                    )
                    &&& final(self).refunds_view() == old(self).refunds_view().insert(
                        refund_id@,
                        RefundRecord { status: RefundStatus::Completed, ..f },
                    )
                    &&& final(self).refund_ids_view() == old(self).refund_ids_view().push(
                        f.refund_id,
                    )
                    &&& Some(final(self).stats_view()) == stats_after_refund(
                        old(self).stats_view(),
                        f.amount,
                    )
                    &&& final(self).transfers_view() == old(self).transfers_view().push(
                        TokenTransfer {
                            token: p.token,
                            from: p.merchant_address,
                            to: p.payer,
                            amount: f.amount,
                        },
                    )
                    &&& final(self).events_view() == old(self).events_view().push(
                        ContractEvent::RefundExecuted { refund_id: f.refund_id, amount: f.amount },
                    )
                    &&& final(self).merchant_index_view() == old(self).merchant_index_view()
                    &&& final(self).payer_index_view() == old(self).payer_index_view()
                    &&& final(self).global_ids_view() == old(self).global_ids_view()
                    &&& Self::same_config(old(self), final(self))
                    &&& final(self).merchants_view() == old(self).merchants_view()
                    &&& final(self).multisigs_view() == old(self).multisigs_view()
                },
            },
    {
        let refund = match self.refunds.get(refund_id) {
            None => return Err(PaymentError::RefundNotFound),
            Some(f) => f,
        };
        if refund.status != RefundStatus::Approved {
            return Err(PaymentError::RefundNotApproved);
        }
        let record = match self.payments.get(refund.order_id.as_str()) {
            None => return Err(PaymentError::PaymentNotFound),
            Some(p) => p,
        };
        if !crate::table::str_eq(caller, record.merchant_address.as_str()) {
            return Err(PaymentError::Unauthorized);
        }
        let new_total = match record.refunded_amount.checked_add(refund.amount) {
            Some(t) => t,
            None => {
                if refund.amount > 0 {
                    return Err(PaymentError::RefundAmountExceedsPayment);
                }
                return Err(PaymentError::ArithmeticError);
            },
        };
        if new_total > record.amount {
            return Err(PaymentError::RefundAmountExceedsPayment);
        }
        let reserved = if record.pending_refund_amount >= refund.amount {
            record.pending_refund_amount - refund.amount
        } else {
            0
        };
        let new_stats = match add_refund_stats(self.stats, refund.amount) {
            Some(s) => s,
            None => return Err(PaymentError::ArithmeticError),
        };
        let amount = refund.amount;
        let transfer = TokenTransfer {
            token: record.token.clone(),
            from: record.merchant_address.clone(),
            to: record.payer.clone(),
            amount,
        };
        let order_key = refund.order_id.clone();
        let mut refund = match self.refunds.take(refund_id) {
            Some(f) => f,
            None => return Err(PaymentError::RefundNotFound),
        };
        let mut record = match self.payments.take(order_key.as_str()) {
            Some(p) => p,
            None => return Err(PaymentError::PaymentNotFound),
        };
        record.refunded_amount = new_total;
        record.pending_refund_amount = reserved;
        record.status = if new_total == record.amount {
            PaymentStatus::FullyRefunded
        } else {
            PaymentStatus::PartiallyRefunded
        };
        self.payments.upsert(record);
        proof {
            assert(self.payments.view() =~= old(self).payments.view().insert(order_key@, record));
        }
        refund.status = RefundStatus::Completed;
        let rid = refund.refund_id.clone();
        let ev_rid = refund.refund_id.clone();
        self.refunds.upsert(refund);
        proof {
            assert(self.refunds.view() =~= old(self).refunds.view().insert(refund_id@, refund));
        }
        self.refund_ids.push(rid);
        self.stats = new_stats;
        self.transfers.push(transfer);
        self.events.push(ContractEvent::RefundExecuted { refund_id: ev_rid, amount });
        Ok(())
    }

    /// The status of refund `refund_id`.
    pub fn get_refund_status(&self, refund_id: &str) -> (r: Result<RefundStatus, PaymentError>)
        requires
            self.wf(),
        ensures
            r == if self.refunds_view().dom().contains(refund_id@) {
                Ok::<RefundStatus, PaymentError>(self.refunds_view()[refund_id@].status)
            } else {
                Err(PaymentError::RefundNotFound)
            },
    {
        match self.refunds.get(refund_id) {
            Some(f) => Ok(f.status),
            None => Err(PaymentError::RefundNotFound),
        }
    }
}

/// The reason a multisig payment is refused at initiation, checked in this order.
pub open spec fn initiate_multisig_error(
    c: PaymentContract,
    payment_id: Seq<char>,
    order: PaymentOrder,
    signers: Seq<String>,
    now: u64,
) -> Option<PaymentError> {
    if order.amount <= 0 {
        Some(PaymentError::InvalidAmount)
    } else if c.multisigs_view().dom().contains(payment_id) {
        Some(PaymentError::PaymentAlreadyExists)
    } else if signers.len() == 0 || signers.len() > MAX_SIGNERS || !distinct_strings(signers) {
        Some(PaymentError::InvalidInput)
    } else if now + c.multisig_expiry_view() > u64::MAX {
        Some(PaymentError::ArithmeticError)
    } else {
        None
    }
}

/// The reason a signature is refused, checked in this order.
pub open spec fn sign_multisig_error(
    c: PaymentContract,
    signer: Seq<char>,
    payment_id: Seq<char>,
    now: u64,
) -> Option<PaymentError> {
    if !c.multisigs_view().dom().contains(payment_id) {
        Some(PaymentError::MultisigNotFound)
    } else if c.multisigs_view()[payment_id].executed {
        Some(PaymentError::MultisigAlreadyExecuted)
    } else if now > c.multisigs_view()[payment_id].expires_at {
        Some(PaymentError::PaymentExpired)
    } else if !holds(c.multisigs_view()[payment_id].required_signers@, signer) {
        Some(PaymentError::Unauthorized)
    } else if holds(c.multisigs_view()[payment_id].signatures@, signer) {
        Some(PaymentError::MultisigAlreadySigned)
    } else {
        None
    }
}

/// The reason an execution is refused, checked in this order.
pub open spec fn execute_multisig_error(c: PaymentContract, payment_id: Seq<char>, now: u64) -> Option<
    PaymentError,
> {
    if !c.multisigs_view().dom().contains(payment_id) {
        Some(PaymentError::MultisigNotFound)
    } else if c.multisigs_view()[payment_id].executed {
        Some(PaymentError::MultisigAlreadyExecuted)
    } else if now > c.multisigs_view()[payment_id].expires_at {
        Some(PaymentError::PaymentExpired)
    } else if c.multisigs_view()[payment_id].signatures@.len()
        < c.multisigs_view()[payment_id].required_signers@.len() {
        Some(PaymentError::InsufficientSignatures)
    } else if order_expired(c.multisigs_view()[payment_id].order.expires_at, now) {
        Some(PaymentError::PaymentExpired)
    } else {
        None
    }
}

/// A multisig payment with its signatures replaced.
pub open spec fn same_multisig_but(a: MultisigPayment, b: MultisigPayment) -> bool {
    &&& a.payment_id == b.payment_id
    &&& a.order == b.order
    &&& a.required_signers@ == b.required_signers@
    &&& a.expires_at == b.expires_at
    &&& a.created_at == b.created_at
}

impl PaymentContract {
    // ── Multisig payments ──────────────────────────────────────────────────

    /// Opens a multisig payment: the initiator's tokens move into the
    /// contract's escrow until every required signer has signed. Signers
    /// must be 1 to 10 distinct addresses.
    pub fn initiate_multisig_payment(
        &mut self,
        initiator: String,
        payment_id: String,
        order: PaymentOrder,
        required_signers: Vec<String>,
        now: u64,
    ) -> (r: Result<(), PaymentError>)
        requires
            old(self).wf(),
        ensures
            final(self).audit_view() == old(self).audit_view(),
            final(self).wf(),
            match initiate_multisig_error(*old(self), payment_id@, order, required_signers@, now) {
                Some(e) => r == Err::<(), PaymentError>(e) && *final(self) == *old(self),
                None => r is Ok && final(self).multisigs_view().dom() == old(self).multisigs_view().dom().insert(payment_id@) && ({
                    let ms = final(self).multisigs_view()[payment_id@];
                    &&& ms.payment_id == payment_id
                    &&& ms.order == order
                    &&& ms.required_signers@ == required_signers@
                    &&& ms.signatures@.len() == 0
                    &&& !ms.executed
                    &&& ms.expires_at == now + old(self).multisig_expiry_view()
                    &&& ms.created_at == now
                }) && (forall|k: Seq<char>|
                    #[trigger] old(self).multisigs_view().dom().contains(k) ==> final(self).multisigs_view()[k] == old(self).multisigs_view()[k])
                    && final(self).transfers_view() == old(self).transfers_view().push(
                    TokenTransfer {
                        token: order.token,
                        from: initiator,
                        to: old(self).contract_address_view(),
                        amount: order.amount,
                    },
                ) && final(self).events_view() == old(self).events_view().push(
                    ContractEvent::MultisigInitiated { payment_id, initiator },
                ) && Self::same_config(old(self), final(self)) && Self::same_ledger(
                    old(self),
                    final(self),
                ) && Self::same_refunds(old(self), final(self)) && final(self).merchants_view()
                    == old(self).merchants_view(),
            },
    {
        validate_amount(order.amount)?;
        if self.multisigs.contains(payment_id.as_str()) {
            return Err(PaymentError::PaymentAlreadyExists);
        }
        if required_signers.len() == 0 || required_signers.len() > MAX_SIGNERS || !all_distinct(
            &required_signers,
        ) {
            return Err(PaymentError::InvalidInput);
        }
        let expires_at = match now.checked_add(self.multisig_expiry) {
            Some(t) => t,
            None => return Err(PaymentError::ArithmeticError),
        };
        let transfer = TokenTransfer {
            token: order.token.clone(),
            from: initiator.clone(),
            to: self.contract_address.clone(),
            amount: order.amount,
        };
        let event = ContractEvent::MultisigInitiated {
            payment_id: payment_id.clone(),
            initiator,
        };
        let ms = MultisigPayment {
            payment_id,
            order,
            required_signers,
            signatures: Vec::new(),
            executed: false,
            expires_at,
            created_at: now,
        };
        self.multisigs.upsert(ms);
        self.transfers.push(transfer);
        self.events.push(event);
        Ok(())
    }

    /// Adds `signer`'s signature to a multisig payment; the signer must be
    /// required and not have signed yet.
    pub fn sign_multisig_payment(&mut self, signer: String, payment_id: &str, now: u64) -> (r: Result<
        (),
        PaymentError,
    >)
        requires
            old(self).wf(),
        ensures
            final(self).audit_view() == old(self).audit_view(),
            final(self).wf(),
            match sign_multisig_error(*old(self), signer@, payment_id@, now) {
                Some(e) => r == Err::<(), PaymentError>(e) && *final(self) == *old(self),
                None => r is Ok && final(self).multisigs_view().dom() == old(self).multisigs_view().dom() && same_multisig_but(
                    final(self).multisigs_view()[payment_id@],
                    old(self).multisigs_view()[payment_id@],
                ) && !final(self).multisigs_view()[payment_id@].executed
                    && final(self).multisigs_view()[payment_id@].signatures@ == old(self).multisigs_view()[payment_id@].signatures@.push(signer) && (forall|k: Seq<char>|
                    #[trigger] old(self).multisigs_view().dom().contains(k) && k != payment_id@
                        ==> final(self).multisigs_view()[k] == old(self).multisigs_view()[k])
                    && final(self).events_view() == old(self).events_view().push(
                    ContractEvent::MultisigSigned {
                        payment_id: old(self).multisigs_view()[payment_id@].payment_id,
                        signer,
                    },
                ) && Self::same_config(old(self), final(self)) && Self::same_ledger(
                    old(self),
                    final(self),
                ) && Self::same_refunds(old(self), final(self)) && Self::same_transfers(
                    old(self),
                    final(self),
                ) && final(self).merchants_view() == old(self).merchants_view(),
            },
    {
        let ms = match self.multisigs.get(payment_id) {
            None => return Err(PaymentError::MultisigNotFound),
            Some(m) => m,
        };
        if ms.executed {
            return Err(PaymentError::MultisigAlreadyExecuted);
        }
        if now > ms.expires_at {
            return Err(PaymentError::PaymentExpired);
        }
        if !contains_string(&ms.required_signers, signer.as_str()) {
            return Err(PaymentError::Unauthorized);
        }
        if contains_string(&ms.signatures, signer.as_str()) {
            return Err(PaymentError::MultisigAlreadySigned);
        }
        let mut ms = match self.multisigs.take(payment_id) {
            Some(m) => m,
            None => return Err(PaymentError::MultisigNotFound),
        };
        let event = ContractEvent::MultisigSigned {
            payment_id: ms.payment_id.clone(),
            signer: signer.clone(),
        };
        ms.signatures.push(signer);
        self.multisigs.upsert(ms);
        self.events.push(event);
        Ok(())
    }

    /// Executes a fully signed multisig payment: the escrowed tokens go to
    /// the merchant and the payment is recorded as one made by the order's
    /// payer, indexed under the executor.
    pub fn execute_multisig_payment(&mut self, executor: String, payment_id: &str, now: u64) -> (r:
        Result<(), PaymentError>)
        requires
            old(self).wf(),
        ensures
            final(self).audit_view() == old(self).audit_view(),
            final(self).wf(),
            match execute_multisig_error(*old(self), payment_id@, now) {
                Some(e) => r == Err::<(), PaymentError>(e) && *final(self) == *old(self),
                None => {
                    let ms = old(self).multisigs_view()[payment_id@];
                    let order = ms.order;
                    &&& r is Ok
                    &&& final(self).payments_view() == old(self).payments_view().insert(
                        order.order_id@,
                        new_record(order, order.payer, now),
                    )
                    &&& final(self).merchant_index_view() == index_push(
                        old(self).merchant_index_view(),
                        order.merchant_address@,
                        order.order_id,
                    )
                    &&& final(self).payer_index_view() == index_push(
                        old(self).payer_index_view(),
                        executor@,
                        order.order_id,
                    )
                    &&& final(self).global_ids_view() == old(self).global_ids_view().push(
                        order.order_id,
                    )
                    &&& final(self).stats_view() == stats_after_payment(
                        old(self).stats_view(),
                        order.amount,
                    )
                    &&& final(self).transfers_view() == old(self).transfers_view().push(
                        TokenTransfer {
                            token: order.token,
                            from: old(self).contract_address_view(),
                            to: order.merchant_address,
                            amount: order.amount,
                        },
                    )
                    &&& final(self).events_view() == old(self).events_view().push(
                        ContractEvent::MultisigExecuted {
                            payment_id: ms.payment_id,
                            executor,
                            amount: order.amount,
                        },
                    )
                    &&& final(self).multisigs_view().dom() == old(self).multisigs_view().dom()
                    &&& same_multisig_but(final(self).multisigs_view()[payment_id@], ms)
                    &&& final(self).multisigs_view()[payment_id@].executed
                    &&& final(self).multisigs_view()[payment_id@].signatures@ == ms.signatures@
                    &&& forall|k: Seq<char>|
                        #[trigger] old(self).multisigs_view().dom().contains(k) && k != payment_id@
                            ==> final(self).multisigs_view()[k] == old(self).multisigs_view()[k]
                    &&& Self::same_config(old(self), final(self))
                    &&& Self::same_refunds(old(self), final(self))
                    &&& final(self).merchants_view() == old(self).merchants_view()
                },
            },
    {
        let ms = match self.multisigs.get(payment_id) {
            None => return Err(PaymentError::MultisigNotFound),
            Some(m) => m,
        };
        if ms.executed {
            return Err(PaymentError::MultisigAlreadyExecuted);
        }
        if now > ms.expires_at {
            return Err(PaymentError::PaymentExpired);
        }
        if ms.signatures.len() < ms.required_signers.len() {
            return Err(PaymentError::InsufficientSignatures);
        }
        if ms.order.expires_at > 0 && now > ms.order.expires_at {
            return Err(PaymentError::PaymentExpired);
        }
        let mut ms = match self.multisigs.take(payment_id) {
            Some(m) => m,
            None => return Err(PaymentError::MultisigNotFound),
        };
        let ghost ms0 = ms;
        let event = ContractEvent::MultisigExecuted {
            payment_id: ms.payment_id.clone(),
            executor: executor.clone(),
            amount: ms.order.amount,
        };
        let record = PaymentRecord {
            order_id: ms.order.order_id.clone(),
            merchant_address: ms.order.merchant_address.clone(),
            payer: ms.order.payer.clone(),
            token: ms.order.token.clone(),
            amount: ms.order.amount,
            refunded_amount: 0,
            pending_refund_amount: 0,
            status: PaymentStatus::Completed,
            paid_at: now,
            description: ms.order.description.clone(),
        };
        let escrow = self.contract_address.clone();
        ms.executed = true;
        self.multisigs.upsert(ms);
        self.record_payment(record, executor.as_str(), escrow, event);
        Ok(())
    }
}

// ── History queries ──────────────────────────────────────────────────────────

/// The payments that `ids` name, in order, that exist and pass `filter`.
pub open spec fn matching_records(
    payments: Map<Seq<char>, PaymentRecord>,
    ids: Seq<String>,
    filter: Option<PaymentFilter>,
) -> Seq<PaymentRecord>
    decreases ids.len(),
{
    if ids.len() == 0 {
        Seq::empty()
    } else {
        let rest = matching_records(payments, ids.drop_last(), filter);
        let id = ids.last()@;
        if payments.dom().contains(id) && (filter matches Some(f) ==> passes_filter(
            payments[id],
            f,
        )) {
            rest.push(payments[id])
        } else {
            rest
        }
    }
}

/// The sort key of a payment.
pub open spec fn sort_key(r: PaymentRecord, field: SortField) -> i128 {
    match field {
        SortField::Date => r.paid_at as i128,
        SortField::Amount => r.amount,
    }
}

/// Payments paired with their sort keys.
pub open spec fn keyed_records(rs: Seq<PaymentRecord>, field: SortField) -> Seq<(i128, PaymentRecord)> {
    rs.map_values(|r: PaymentRecord| (sort_key(r, field), r))
}

/// Payments sorted stably by the key of `field`, in `order`.
pub open spec fn sorted_records(rs: Seq<PaymentRecord>, field: SortField, order: SortOrder) -> Seq<
    PaymentRecord,
> {
    sort_spec(keyed_records(rs, field), order == SortOrder::Descending).map_values(
        |p: (i128, PaymentRecord)| p.1,
    )
}

/// Position of the first payment with order id `c`.
pub open spec fn cursor_index(rs: Seq<PaymentRecord>, c: Seq<char>) -> Option<int>
    decreases rs.len(),
{
    if rs.len() == 0 {
        None
    } else if rs[0].order_id@ == c {
        Some(0)
    } else {
        match cursor_index(rs.drop_first(), c) {
            Some(i) => Some(i + 1),
            None => None,
        }
    }
}

/// The payments after the cursor: all of them without a cursor, those after
/// the payment it names, none when it names no payment.
pub open spec fn after_cursor(rs: Seq<PaymentRecord>, cursor: Option<String>) -> Seq<PaymentRecord> {
    match cursor {
        None => rs,
        Some(c) => match cursor_index(rs, c@) {
            Some(i) => rs.skip(i + 1),
            None => Seq::empty(),
        },
    }
}

/// The sorted, filtered payments from the cursor on.
pub open spec fn history_rest(
    payments: Map<Seq<char>, PaymentRecord>,
    ids: Seq<String>,
    cursor: Option<String>,
    filter: Option<PaymentFilter>,
    field: SortField,
    order: SortOrder,
) -> Seq<PaymentRecord> {
    after_cursor(sorted_records(matching_records(payments, ids, filter), field, order), cursor)
}

/// Page size: the limit, at most 100.
pub open spec fn page_cap(limit: u32) -> int {
    if limit < 100 { limit as int } else { 100 }
}

/// The page cut from `rest`.
pub open spec fn page_of(rest: Seq<PaymentRecord>, limit: u32) -> (Seq<PaymentRecord>, Option<Seq<char>>, u32) {
    let cap = page_cap(limit);
    (
        if rest.len() <= cap { rest } else { rest.take(cap) },
        if rest.len() > cap { Some(rest[cap - 1].order_id@) } else { None },
        rest.len() as u32,
    )
}

// ── Statistics ───────────────────────────────────────────────────────────────

/// `t` lies in the optional window `[start, end]`.
pub open spec fn in_window(t: u64, start: Option<u64>, end: Option<u64>) -> bool {
    &&& (start matches Some(s) ==> t >= s)
    &&& (end matches Some(e) ==> t <= e)
}

/// Count and volume of the payments that `ids` name within the window;
/// `None` when a counter overflows.
pub open spec fn payment_totals(
    payments: Map<Seq<char>, PaymentRecord>,
    ids: Seq<String>,
    start: Option<u64>,
    end: Option<u64>,
) -> Option<(u64, i128)>
    decreases ids.len(),
{
    if ids.len() == 0 {
        Some((0u64, 0i128))
    } else {
        match payment_totals(payments, ids.drop_last(), start, end) {
            None => None,
            Some(acc) => {
                let id = ids.last()@;
                if payments.dom().contains(id) && in_window(payments[id].paid_at, start, end) {
                    if acc.0 < u64::MAX && i128::MIN <= acc.1 + payments[id].amount <= i128::MAX {
                        Some(((acc.0 + 1) as u64, (acc.1 + payments[id].amount) as i128))
                    } else {
                        None
                    }
                } else {
                    Some(acc)
                }
            },
        }
    }
}

/// Count and volume of the refunds that `ids` name initiated within the
/// window; `None` when a counter overflows.
pub open spec fn refund_totals(
    refunds: Map<Seq<char>, RefundRecord>,
    ids: Seq<String>,
    start: Option<u64>,
    end: Option<u64>,
) -> Option<(u64, i128)>
    decreases ids.len(),
{
    if ids.len() == 0 {
        Some((0u64, 0i128))
    } else {
        match refund_totals(refunds, ids.drop_last(), start, end) {
            None => None,
            Some(acc) => {
                let id = ids.last()@;
                if refunds.dom().contains(id) && in_window(refunds[id].initiated_at, start, end) {
                    if acc.0 < u64::MAX && i128::MIN <= acc.1 + refunds[id].amount <= i128::MAX {
                        Some(((acc.0 + 1) as u64, (acc.1 + refunds[id].amount) as i128))
                    } else {
                        None
                    }
                } else {
                    Some(acc)
                }
            },
        }
    }
}

// ── Cleanup ──────────────────────────────────────────────────────────────────

/// Payments made before this time are expired (`now - period`, at least 0).
pub open spec fn cleanup_cutoff(now: u64, period: u64) -> u64 {
    if now > period { (now - period) as u64 } else { 0 }
}

/// Walks the payment ids: removes expired payments, keeps the ids of live
/// ones (ids of missing payments are dropped), and counts the removals.
pub open spec fn cleanup_fold(
    payments: Map<Seq<char>, PaymentRecord>,
    ids: Seq<String>,
    cutoff: u64,
) -> (Map<Seq<char>, PaymentRecord>, Seq<String>, nat)
    decreases ids.len(),
{
    if ids.len() == 0 {
        (payments, Seq::empty(), 0)
    } else {
        let acc = cleanup_fold(payments, ids.drop_last(), cutoff);
        let id = ids.last();
        if acc.0.dom().contains(id@) {
            if acc.0[id@].paid_at < cutoff {
                (acc.0.remove(id@), acc.1, acc.2 + 1)
            } else {
                (acc.0, acc.1.push(id), acc.2)
            }
        } else {
            acc
        }
    }
}

proof fn lemma_cleanup_count_bound(
    payments: Map<Seq<char>, PaymentRecord>,
    ids: Seq<String>,
    cutoff: u64,
)
    ensures
        cleanup_fold(payments, ids, cutoff).2 <= ids.len(),
    decreases ids.len(),
{
    if ids.len() > 0 {
        lemma_cleanup_count_bound(payments, ids.drop_last(), cutoff);
    }
}

fn find_cursor(pairs: &Vec<(i128, PaymentRecord)>, c: &str) -> (r: Option<usize>)
    ensures
        match r {
            Some(j) => j < pairs@.len() && cursor_index(
                pairs@.map_values(|p: (i128, PaymentRecord)| p.1),
                c@,
            ) == Some(j as int),
            None => cursor_index(pairs@.map_values(|p: (i128, PaymentRecord)| p.1), c@) is None,
        },
{
    let ghost rs = pairs@.map_values(|p: (i128, PaymentRecord)| p.1);
    let mut j: usize = 0;
    assert(rs.skip(0) =~= rs);
    while j < pairs.len()
        invariant
            rs == pairs@.map_values(|p: (i128, PaymentRecord)| p.1),
            j <= pairs@.len(),
            cursor_index(rs, c@) == match cursor_index(rs.skip(j as int), c@) {
                Some(k) => Some(k + j),
                None => None,
            },
        decreases pairs@.len() - j,
    {
        assert(rs.skip(j as int)[0] == rs[j as int]);
        assert(rs[j as int] == pairs@[j as int].1);
        assert(rs.skip(j as int).drop_first() =~= rs.skip(j + 1));
        if crate::table::str_eq(pairs[j].1.order_id.as_str(), c) {
            return Some(j);
        }
        j = j + 1;
    }
    assert(rs.skip(j as int) =~= Seq::<PaymentRecord>::empty());
    None
}

fn build_page(pairs: &Vec<(i128, PaymentRecord)>, start: usize, limit: u32) -> (r: PaymentPage)
    requires
        start <= pairs@.len(),
        limit > 0 || start == pairs@.len(),
    ensures
        ({
            let page = page_of(
                pairs@.map_values(|p: (i128, PaymentRecord)| p.1).skip(start as int),
                limit,
            );
            &&& r.records@ == page.0
            &&& match r.next_cursor {
                Some(c) => page.1 == Some(c@),
                None => page.1 is None,
            }
            &&& r.total == page.2
        }),
{
    let ghost rest = pairs@.map_values(|p: (i128, PaymentRecord)| p.1).skip(start as int);
    let n = pairs.len();
    let cap: usize = if limit < 100 {
        limit as usize
    } else {
        100
    };
    let remaining = n - start;
    let take = if remaining <= cap {
        remaining
    } else {
        cap
    };
    let mut records: Vec<PaymentRecord> = Vec::new();
    let mut k: usize = 0;
    while k < take
        invariant
            n == pairs@.len(),
            rest == pairs@.map_values(|p: (i128, PaymentRecord)| p.1).skip(start as int),
            start <= n,
            take <= n - start,
            k <= take,
            records@ == rest.take(k as int),
        decreases take - k,
    {
        records.push(copy_payment(&pairs[start + k].1));
        k = k + 1;
        assert(records@ =~= rest.take(k as int));
    }
    let next_cursor = if remaining > cap {
        assert(rest[cap - 1] == pairs@[start + cap - 1].1);
        Some(pairs[start + cap - 1].1.order_id.clone())
    } else {
        None
    };
    if remaining <= cap {
        assert(records@ =~= rest);
    }
    PaymentPage { records, next_cursor, total: remaining as u32 }
}

impl PaymentContract {
    fn index_ids<'a>(t: &'a Table<IdList>, owner: &str) -> (r: Vec<String>)
        requires
            t.wf(),
        ensures
            r@ == ids_of(index_view(*t), owner@),
    {
        match t.get(owner) {
            Some(l) => copy_strings(&l.ids),
            None => Vec::new(),
        }
    }

    /// The page of the payments that `ids` name: filtered, sorted stably,
    /// started after the cursor and cut to at most `min(limit, 100)` records.
    pub fn paginate_payments(
        &self,
        ids: &Vec<String>,
        cursor: Option<String>,
        limit: u32,
        filter: Option<PaymentFilter>,
        sort_field: SortField,
        sort_order: SortOrder,
    ) -> (r: PaymentPage)
        requires
            self.wf(),
            limit > 0 || history_rest(
                self.payments_view(),
                ids@,
                cursor,
                filter,
                sort_field,
                sort_order,
            ).len() == 0,
        ensures
            ({
                let page = page_of(
                    history_rest(self.payments_view(), ids@, cursor, filter, sort_field, sort_order),
                    limit,
                );
                &&& r.records@ == page.0
                &&& match r.next_cursor {
                    Some(c) => page.1 == Some(c@),
                    None => page.1 is None,
                }
                &&& r.total == page.2
            }),
    {
        let pairs = self.collect_matching(ids, &filter, sort_field);
        let descending = match sort_order {
            SortOrder::Descending => true,
            SortOrder::Ascending => false,
        };
        let sorted_pairs = stable_sort(pairs, descending);
        let ghost sorted = sorted_records(
            matching_records(self.payments_view(), ids@, filter),
            sort_field,
            sort_order,
        );
        assert(sorted_pairs@.map_values(|p: (i128, PaymentRecord)| p.1) =~= sorted);
        let n = sorted_pairs.len();
        let start = match &cursor {
            None => 0,
            Some(c) => match find_cursor(&sorted_pairs, c.as_str()) {
                Some(j) => {
                    assert(j < n);
                    j + 1
                },
                None => n,
            },
        };
        build_page(&sorted_pairs, start, limit)
    }

    fn collect_matching(&self, ids: &Vec<String>, filter: &Option<PaymentFilter>, sort_field: SortField) -> (r:
        Vec<(i128, PaymentRecord)>)
        requires
            self.wf(),
        ensures
            r@ == keyed_records(matching_records(self.payments_view(), ids@, *filter), sort_field),
    {
        let ghost payments = self.payments_view();
        let mut pairs: Vec<(i128, PaymentRecord)> = Vec::new();
        let mut i: usize = 0;
        while i < ids.len()
            invariant
                self.wf(),
                payments == self.payments_view(),
                i <= ids.len(),
                pairs@ == keyed_records(
                    matching_records(payments, ids@.take(i as int), *filter),
                    sort_field,
                ),
            decreases ids.len() - i,
        {
            assert(ids@.take(i + 1).drop_last() =~= ids@.take(i as int));
            assert(ids@.take(i + 1).last() == ids@[i as int]);
            let ghost before = matching_records(payments, ids@.take(i as int), *filter);
            match self.payments.get(ids[i].as_str()) {
                Some(record) => {
                    let passes = match filter {
                        Some(f) => matches_filter(record, f),
                        None => true,
                    };
                    if passes {
                        let key: i128 = match sort_field {
                            SortField::Date => record.paid_at as i128,
                            SortField::Amount => record.amount,
                        };
                        pairs.push((key, copy_payment(record)));
                        assert(pairs@ =~= keyed_records(before.push(*record), sort_field));
                    }
                },
                None => {},
            }
            i = i + 1;
        }
        assert(ids@.take(i as int) =~= ids@);
        pairs
    }

    /// A page of the payments received by `merchant`.
    pub fn get_merchant_payment_history(
        &self,
        merchant: &str,
        cursor: Option<String>,
        limit: u32,
        filter: Option<PaymentFilter>,
        sort_field: SortField,
        sort_order: SortOrder,
    ) -> (r: Result<PaymentPage, PaymentError>)
        requires
            self.wf(),
            limit > 0 || history_rest(
                self.payments_view(),
                ids_of(self.merchant_index_view(), merchant@),
                cursor,
                filter,
                sort_field,
                sort_order,
            ).len() == 0,
        ensures
            r is Ok,
            ({
                let page = page_of(
                    history_rest(
                        self.payments_view(),
                        ids_of(self.merchant_index_view(), merchant@),
                        cursor,
                        filter,
                        sort_field,
                        sort_order,
                    ),
                    limit,
                );
                &&& r->Ok_0.records@ == page.0
                &&& match r->Ok_0.next_cursor {
                    Some(c) => page.1 == Some(c@),
                    None => page.1 is None,
                }
                &&& r->Ok_0.total == page.2
            }),
    {
        let ids = Self::index_ids(&self.merchant_index, merchant);
        Ok(self.paginate_payments(&ids, cursor, limit, filter, sort_field, sort_order))
    }

    /// A page of the payments made by `payer`.
    pub fn get_payer_payment_history(
        &self,
        payer: &str,
        cursor: Option<String>,
        limit: u32,
        filter: Option<PaymentFilter>,
        sort_field: SortField,
        sort_order: SortOrder,
    ) -> (r: Result<PaymentPage, PaymentError>)
        requires
            self.wf(),
            limit > 0 || history_rest(
                self.payments_view(),
                ids_of(self.payer_index_view(), payer@),
                cursor,
                filter,
                sort_field,
                sort_order,
            ).len() == 0,
        ensures
            r is Ok,
            ({
                let page = page_of(
                    history_rest(
                        self.payments_view(),
                        ids_of(self.payer_index_view(), payer@),
                        cursor,
                        filter,
                        sort_field,
                        sort_order,
                    ),
                    limit,
                );
                &&& r->Ok_0.records@ == page.0
                &&& match r->Ok_0.next_cursor {
                    Some(c) => page.1 == Some(c@),
                    None => page.1 is None,
                }
                &&& r->Ok_0.total == page.2
            }),
    {
        let ids = Self::index_ids(&self.payer_index, payer);
        Ok(self.paginate_payments(&ids, cursor, limit, filter, sort_field, sort_order))
    }

    /// Payment and refund statistics (admin only): the running totals, or,
    /// when a date bound is given, the payments made and refunds initiated
    /// within it.
    pub fn get_global_payment_stats(
        &self,
        admin: &str,
        date_start: Option<u64>,
        date_end: Option<u64>,
    ) -> (r: Result<GlobalStats, PaymentError>)
        requires
            self.wf(),
        ensures
            r == if !self.is_admin(admin@) {
                Err::<GlobalStats, PaymentError>(PaymentError::Unauthorized)
            } else if date_start is None && date_end is None {
                Ok(self.stats_view())
            } else {
                match (
                    payment_totals(self.payments_view(), self.global_ids_view(), date_start, date_end),
                    refund_totals(self.refunds_view(), self.refund_ids_view(), date_start, date_end),
                ) {
                    (Some(p), Some(q)) => Ok(
                        GlobalStats {
                            total_payments: p.0,
                            total_volume: p.1,
                            total_refunds: q.0,
                            total_refund_volume: q.1,
                        },
                    ),
                    _ => Err(PaymentError::ArithmeticError),
                }
            },
    {
        self.require_admin(admin)?;
        if date_start.is_none() && date_end.is_none() {
            return Ok(self.stats);
        }
        let p = self.payment_window_totals(date_start, date_end);
        let q = self.refund_window_totals(date_start, date_end);
        match (p, q) {
            (Some(p), Some(q)) => Ok(
                GlobalStats {
                    total_payments: p.0,
                    total_volume: p.1,
                    total_refunds: q.0,
                    total_refund_volume: q.1,
                },
            ),
            _ => Err(PaymentError::ArithmeticError),
        }
    }

    fn payment_window_totals(&self, date_start: Option<u64>, date_end: Option<u64>) -> (r: Option<
        (u64, i128),
    >)
        requires
            self.wf(),
        ensures
            r == payment_totals(self.payments_view(), self.global_ids_view(), date_start, date_end),
    {
        let ghost payments = self.payments_view();
        let mut count: u64 = 0;
        let mut volume: i128 = 0;
        let mut i: usize = 0;
        while i < self.global_ids.len()
            invariant
                self.wf(),
                payments == self.payments_view(),
                i <= self.global_ids@.len(),
                payment_totals(payments, self.global_ids@.take(i as int), date_start, date_end)
                    == Some((count, volume)),
            decreases self.global_ids@.len() - i,
        {
            assert(self.global_ids@.take(i + 1).drop_last() =~= self.global_ids@.take(i as int));
            assert(self.global_ids@.take(i + 1).last() == self.global_ids@[i as int]);
            match self.payments.get(self.global_ids[i].as_str()) {
                Some(record) => {
                    let in_range = match date_start {
                        Some(s) => record.paid_at >= s,
                        None => true,
                    } && match date_end {
                        Some(e) => record.paid_at <= e,
                        None => true,
                    };
                    if in_range {
                        let next = if count == u64::MAX {
                            None
                        } else {
                            volume.checked_add(record.amount)
                        };
                        match next {
                            Some(v) => {
                                volume = v;
                                count = count + 1;
                            },
                            None => {
                                assert(payment_totals(
                                    payments,
                                    self.global_ids@.take(i + 1),
                                    date_start,
                                    date_end,
                                ) is None);
                                proof {
                                    lemma_totals_stay_none(
                                        payments,
                                        self.global_ids@,
                                        i + 1,
                                        date_start,
                                        date_end,
                                    );
                                }
                                return None;
                            },
                        }
                    }
                },
                None => {},
            }
            i = i + 1;
        }
        assert(self.global_ids@.take(i as int) =~= self.global_ids@);
        Some((count, volume))
    }

    fn refund_window_totals(&self, date_start: Option<u64>, date_end: Option<u64>) -> (r: Option<
        (u64, i128),
    >)
        requires
            self.wf(),
        ensures
            r == refund_totals(self.refunds_view(), self.refund_ids_view(), date_start, date_end),
    {
        let ghost refunds = self.refunds_view();
        let mut count: u64 = 0;
        let mut volume: i128 = 0;
        let mut i: usize = 0;
        while i < self.refund_ids.len()
            invariant
                self.wf(),
                refunds == self.refunds_view(),
                i <= self.refund_ids@.len(),
                refund_totals(refunds, self.refund_ids@.take(i as int), date_start, date_end)
                    == Some((count, volume)),
            decreases self.refund_ids@.len() - i,
        {
            assert(self.refund_ids@.take(i + 1).drop_last() =~= self.refund_ids@.take(i as int));
            assert(self.refund_ids@.take(i + 1).last() == self.refund_ids@[i as int]);
            match self.refunds.get(self.refund_ids[i].as_str()) {
                Some(record) => {
                    let in_range = match date_start {
                        Some(s) => record.initiated_at >= s,
                        None => true,
                    } && match date_end {
                        Some(e) => record.initiated_at <= e,
                        None => true,
                    };
                    if in_range {
                        let next = if count == u64::MAX {
                            None
                        } else {
                            volume.checked_add(record.amount)
                        };
                        match next {
                            Some(v) => {
                                volume = v;
                                count = count + 1;
                            },
                            None => {
                                assert(refund_totals(
                                    refunds,
                                    self.refund_ids@.take(i + 1),
                                    date_start,
                                    date_end,
                                ) is None);
                                proof {
                                    lemma_refund_totals_stay_none(
                                        refunds,
                                        self.refund_ids@,
                                        i + 1,
                                        date_start,
                                        date_end,
                                    );
                                }
                                return None;
                            },
                        }
                    }
                },
                None => {},
            }
            i = i + 1;
        }
        assert(self.refund_ids@.take(i as int) =~= self.refund_ids@);
        Some((count, volume))
    }

    /// Removes the payments made before `now - cleanup_period` (admin only)
    /// and returns how many were removed; when any was, the global index
    /// keeps only the ids of payments still stored.
    pub fn cleanup_expired_payments(&mut self, admin: &str, now: u64) -> (r: Result<u32, PaymentError>)
        requires
            old(self).wf(),
            old(self).global_ids_view().len() <= u32::MAX,
        ensures
            final(self).audit_view() == old(self).audit_view(),
            final(self).wf(),
            !old(self).is_admin(admin@) ==> r == Err::<u32, PaymentError>(
                PaymentError::Unauthorized,
            ) && *final(self) == *old(self),
            old(self).is_admin(admin@) ==> {
                let fold = cleanup_fold(
                    old(self).payments_view(),
                    old(self).global_ids_view(),
                    cleanup_cutoff(now, old(self).cleanup_period_view()),
                );
                &&& r == Ok::<u32, PaymentError>(fold.2 as u32)
                &&& final(self).payments_view() == fold.0
                &&& final(self).global_ids_view() == if fold.2 > 0 {
                    fold.1
                } else {
                    old(self).global_ids_view()
                }
                &&& final(self).merchant_index_view() == old(self).merchant_index_view()
                &&& final(self).payer_index_view() == old(self).payer_index_view()
                &&& final(self).stats_view() == old(self).stats_view()
                &&& Self::same_config(old(self), final(self))
                &&& Self::same_refunds(old(self), final(self))
                &&& Self::same_transfers(old(self), final(self))
                &&& Self::same_events(old(self), final(self))
                &&& final(self).merchants_view() == old(self).merchants_view()
                &&& final(self).multisigs_view() == old(self).multisigs_view()
            },
    {
        self.require_admin(admin)?;
        let cutoff = if now > self.cleanup_period {
            now - self.cleanup_period
        } else {
            0
        };
        let ids = copy_strings(&self.global_ids);
        let mut new_ids: Vec<String> = Vec::new();
        let mut count: u32 = 0;
        let mut i: usize = 0;
        proof {
            lemma_cleanup_count_bound(old(self).payments_view(), ids@, cutoff);
        }
        while i < ids.len()
            invariant
                self.wf(),
                ids@ == old(self).global_ids_view(),
                ids@.len() <= u32::MAX,
                i <= ids.len(),
                ({
                    let fold = cleanup_fold(old(self).payments_view(), ids@.take(i as int), cutoff);
                    &&& self.payments_view() == fold.0
                    &&& new_ids@ == fold.1
                    &&& count == fold.2
                }),
                self.global_ids@ == old(self).global_ids@,
                self.merchant_index == old(self).merchant_index,
                self.payer_index == old(self).payer_index,
                self.stats == old(self).stats,
                self.admin == old(self).admin,
                self.contract_address == old(self).contract_address,
                self.cleanup_period == old(self).cleanup_period,
                self.multisig_expiry == old(self).multisig_expiry,
                self.refunds == old(self).refunds,
                self.refund_ids == old(self).refund_ids,
                self.transfers == old(self).transfers,
                self.events == old(self).events,
                self.merchants == old(self).merchants,
                self.multisigs == old(self).multisigs,
                self.audit@ == old(self).audit@,
            decreases ids.len() - i,
        {
            assert(ids@.take(i + 1).drop_last() =~= ids@.take(i as int));
            assert(ids@.take(i + 1).last() == ids@[i as int]);
            proof {
                lemma_cleanup_count_bound(old(self).payments_view(), ids@.take(i + 1), cutoff);
            }
            let expired = match self.payments.get(ids[i].as_str()) {
                Some(record) => Some(record.paid_at < cutoff),
                None => None,
            };
            match expired {
                Some(true) => {
                    let _ = self.payments.take(ids[i].as_str());
                    count = count + 1;
                },
                Some(false) => {
                    new_ids.push(ids[i].clone());
                },
                None => {},
            }
            i = i + 1;
        }
        assert(ids@.take(i as int) =~= ids@);
        if count > 0 {
            self.global_ids = new_ids;
        }
        Ok(count)
    }
}

proof fn lemma_totals_stay_none(
    payments: Map<Seq<char>, PaymentRecord>,
    ids: Seq<String>,
    k: int,
    start: Option<u64>,
    end: Option<u64>,
)
    requires
        0 <= k <= ids.len(),
        payment_totals(payments, ids.take(k), start, end) is None,
    ensures
        payment_totals(payments, ids, start, end) is None,
    decreases ids.len() - k,
{
    if k < ids.len() {
        assert(ids.take(k + 1).drop_last() =~= ids.take(k));
        lemma_totals_stay_none(payments, ids, k + 1, start, end);
    } else {
        assert(ids.take(k) =~= ids);
    }
}

proof fn lemma_refund_totals_stay_none(
    refunds: Map<Seq<char>, RefundRecord>,
    ids: Seq<String>,
    k: int,
    start: Option<u64>,
    end: Option<u64>,
)
    requires
        0 <= k <= ids.len(),
        refund_totals(refunds, ids.take(k), start, end) is None,
    ensures
        refund_totals(refunds, ids, start, end) is None,
    decreases ids.len() - k,
{
    if k < ids.len() {
        assert(ids.take(k + 1).drop_last() =~= ids.take(k));
        lemma_refund_totals_stay_none(refunds, ids, k + 1, start, end);
    } else {
        assert(ids.take(k) =~= ids);
    }
}

} // verus!
