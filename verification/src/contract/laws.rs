//! Properties of the contract that span its entry points: what a refused
//! request means for the state it would have changed, and what holds of
//! every refund and multi-signature payment whatever the order of calls.
use vstd::prelude::*;

use super::error::PaymentError;
use super::state::{
    distinct_strings, execute_multisig_error, execute_refund_error, history_rest, holds,
    initiate_refund_error, keyed_records, matching_records, page_cap, page_of, payment_error,
    review_refund_error, sign_multisig_error, sort_key, sorted_records, status_after_refund,
    PaymentContract,
};
use super::helper::passes_filter;
use super::types::{
    MultisigPayment, PaymentFilter, PaymentOrder, PaymentRecord, PaymentStatus, RefundStatus,
    SortField, SortOrder, StatusFilter,
};
use crate::sort::sort_spec;

verus! {

/// An order id is paid at most once: once a payment with that id is
/// stored, every further attempt to pay it is refused (and a refused
/// payment changes nothing).
pub proof fn law_order_paid_once(
    c: PaymentContract,
    order: PaymentOrder,
    signature: Seq<u8>,
    key: Seq<u8>,
    now: u64,
)
    requires
        c.payments_view().dom().contains(order.order_id@),
    ensures
        payment_error(c, order, signature, key, now) is Some,
{
}

/// A refund is executed at most once: a completed refund is refused as not
/// approved.
pub proof fn law_refund_executes_once(c: PaymentContract, caller: Seq<char>, refund_id: Seq<char>)
    requires
        c.refunds_view().dom().contains(refund_id),
        c.refunds_view()[refund_id].status == RefundStatus::Completed,
    ensures
        execute_refund_error(c, caller, refund_id) == Some(PaymentError::RefundNotApproved),
{
}

/// A refund is reviewed at most once: once approved, rejected or
/// completed, a further approval or rejection is refused.
pub proof fn law_refund_reviewed_once(c: PaymentContract, caller: Seq<char>, refund_id: Seq<char>)
    requires
        c.refunds_view().dom().contains(refund_id),
        c.refunds_view()[refund_id].status != RefundStatus::Pending,
    ensures
        review_refund_error(c, caller, refund_id) is Some,
{
}

/// Only an approved refund is executed.
pub proof fn law_refund_needs_approval(c: PaymentContract, caller: Seq<char>, refund_id: Seq<char>)
    requires
        execute_refund_error(c, caller, refund_id) is None,
    ensures
        c.refunds_view()[refund_id].status == RefundStatus::Approved,
{
}

/// A refund request is accepted only within what the payment has left:
/// the refunded amount, the amount reserved by the payment's outstanding
/// refunds and the request together stay within the payment.
pub proof fn law_refund_request_within_payment(
    c: PaymentContract,
    caller: Seq<char>,
    refund_id: Seq<char>,
    order_id: Seq<char>,
    amount: i128,
    now: u64,
)
    requires
        initiate_refund_error(c, caller, refund_id, order_id, amount, now) is None,
    ensures
        0 < amount,
        c.payments_view()[order_id].refunded_amount + c.payments_view()[order_id].pending_refund_amount
            + amount <= c.payments_view()[order_id].amount,
{
}

/// A refund is executed only while the payment's refunded amount stays
/// within the payment, and the payment is then fully refunded exactly when
/// its whole amount is refunded.
pub proof fn law_refund_execution_within_payment(
    c: PaymentContract,
    caller: Seq<char>,
    refund_id: Seq<char>,
)
    requires
        execute_refund_error(c, caller, refund_id) is None,
    ensures
        ({
            let f = c.refunds_view()[refund_id];
            let p = c.payments_view()[f.order_id@];
            &&& p.refunded_amount + f.amount <= p.amount
            &&& (status_after_refund(p.amount, (p.refunded_amount + f.amount) as i128)
                == PaymentStatus::FullyRefunded) <==> p.refunded_amount + f.amount == p.amount
        }),
{
}

/// The signatures of a multisig payment are distinct required signers,
/// and the required signers are distinct.
pub open spec fn signatures_sound(m: MultisigPayment) -> bool {
    &&& distinct_strings(m.required_signers@)
    &&& distinct_strings(m.signatures@)
    &&& forall|i: int| 0 <= i < m.signatures@.len() ==> holds(m.required_signers@, #[trigger] m.signatures@[i]@)
}

/// A fresh multisig payment, with no signatures and distinct signers, is
/// sound.
pub proof fn law_new_multisig_sound(m: MultisigPayment)
    requires
        distinct_strings(m.required_signers@),
        m.signatures@.len() == 0,
    ensures
        signatures_sound(m),
{
}

/// An accepted signature keeps a multisig payment sound: the signer is
/// required and has not signed before.
pub proof fn law_signing_keeps_sound(
    c: PaymentContract,
    signer: String,
    payment_id: Seq<char>,
    now: u64,
    after: MultisigPayment,
)
    requires
        signatures_sound(c.multisigs_view()[payment_id]),
        sign_multisig_error(c, signer@, payment_id, now) is None,
        after.required_signers@ == c.multisigs_view()[payment_id].required_signers@,
        after.signatures@ == c.multisigs_view()[payment_id].signatures@.push(signer),
    ensures
        signatures_sound(after),
{
    let before = c.multisigs_view()[payment_id];
    assert forall|i: int| 0 <= i < after.signatures@.len() implies holds(
        after.required_signers@,
        #[trigger] after.signatures@[i]@,
    ) by {
        if i < before.signatures@.len() {
            assert(after.signatures@[i] == before.signatures@[i]);
        }
    }
    assert forall|i: int, j: int| 0 <= i < j < after.signatures@.len() implies #[trigger] after.signatures@[i]@
        != #[trigger] after.signatures@[j]@ by {
        if j == before.signatures@.len() {
            assert(after.signatures@[i] == before.signatures@[i]);
            assert(!holds(before.signatures@, signer@));
        } else {
            assert(after.signatures@[i] == before.signatures@[i]);
            assert(after.signatures@[j] == before.signatures@[j]);
        }
    }
}

/// The texts of a sequence of strings.
pub open spec fn texts(s: Seq<String>) -> Seq<Seq<char>> {
    s.map_values(|x: String| x@)
}

proof fn lemma_texts_set(s: Seq<String>)
    requires
        distinct_strings(s),
    ensures
        texts(s).to_set().len() == s.len(),
        texts(s).to_set().finite(),
        forall|x: Seq<char>| #[trigger] texts(s).to_set().contains(x) <==> holds(s, x),
{
    let t = texts(s);
    assert(t.no_duplicates()) by {
        assert forall|i: int, j: int| 0 <= i < t.len() && 0 <= j < t.len() && i != j implies t[i]
            != t[j] by {
            if i < j {
                assert(s[i]@ != s[j]@);
            } else {
                assert(s[j]@ != s[i]@);
            }
        }
    }
    t.unique_seq_to_set();
    vstd::seq_lib::seq_to_set_is_finite(t);
    assert forall|x: Seq<char>| #[trigger] t.to_set().contains(x) <==> holds(s, x) by {
        if holds(s, x) {
            let i = choose|i: int| 0 <= i < s.len() && #[trigger] s[i]@ == x;
            assert(t[i] == x);
        }
        if t.to_set().contains(x) {
            let i = choose|i: int| 0 <= i < t.len() && t[i] == x;
            assert(s[i]@ == x);
        }
    }
}

/// A multisig payment executes only when every required signer has
/// signed: the count check of the execution, over sound signatures, leaves
/// no required signer out.
pub proof fn law_execution_needs_every_signer(c: PaymentContract, payment_id: Seq<char>, now: u64)
    requires
        signatures_sound(c.multisigs_view()[payment_id]),
        execute_multisig_error(c, payment_id, now) is None,
    ensures
        forall|k: int|
            0 <= k < c.multisigs_view()[payment_id].required_signers@.len() ==> holds(
                c.multisigs_view()[payment_id].signatures@,
                #[trigger] c.multisigs_view()[payment_id].required_signers@[k]@,
            ),
{
    let m = c.multisigs_view()[payment_id];
    let req = m.required_signers@;
    let sig = m.signatures@;
    lemma_texts_set(req);
    lemma_texts_set(sig);
    let rs = texts(req).to_set();
    let ss = texts(sig).to_set();
    assert(ss.subset_of(rs)) by {
        assert forall|x: Seq<char>| #[trigger] ss.contains(x) implies rs.contains(x) by {
            let i = choose|i: int| 0 <= i < sig.len() && #[trigger] sig[i]@ == x;
            assert(holds(req, sig[i]@));
        }
    }
    assert forall|k: int| 0 <= k < req.len() implies holds(sig, #[trigger] req[k]@) by {
        let x = req[k]@;
        assert(rs.contains(x)) by {
            assert(holds(req, x));
        }
        if !ss.contains(x) {
            assert(ss.subset_of(rs.remove(x)));
            vstd::set_lib::lemma_len_subset(ss, rs.remove(x));
            assert(false);
        }
    }
}

/// Without a cursor, a payment history lists every payment of its owner
/// that passes the filter: the total is their number, the listing keeps
/// each of them, orders them by the requested key and order, and the page
/// is the first `min(limit, 100)` of them, with a next cursor exactly when
/// more remain.
pub proof fn law_history_first_page(
    payments: Map<Seq<char>, PaymentRecord>,
    ids: Seq<String>,
    filter: Option<PaymentFilter>,
    field: SortField,
    order: SortOrder,
    limit: u32,
)
    requires
        matching_records(payments, ids, filter).len() <= u32::MAX,
    ensures
        ({
            let m = matching_records(payments, ids, filter);
            let rest = history_rest(payments, ids, None, filter, field, order);
            &&& rest.len() == m.len()
            &&& rest.to_multiset() == m.to_multiset()
            &&& forall|i: int, j: int|
                0 <= i < j < rest.len() ==> if order == SortOrder::Descending {
                    sort_key(#[trigger] rest[j], field) <= sort_key(#[trigger] rest[i], field)
                } else {
                    sort_key(rest[i], field) <= sort_key(rest[j], field)
                }
            &&& page_of(rest, limit).2 == m.len()
            &&& page_of(rest, limit).0 == if m.len() <= page_cap(limit) {
                rest
            } else {
                rest.take(page_cap(limit))
            }
            &&& (page_of(rest, limit).1 is Some <==> m.len() > page_cap(limit))
        }),
{
    let m = matching_records(payments, ids, filter);
    let d = order == SortOrder::Descending;
    let pairs = keyed_records(m, field);
    let sp = sort_spec(pairs, d);
    let rest = sorted_records(m, field, order);
    crate::sort::law_sort_keeps_values(pairs, d);
    crate::sort::law_sort_orders_and_permutes(pairs, d);
    assert(pairs.map_values(|p: (i128, PaymentRecord)| p.1) =~= m);
    assert forall|i: int| 0 <= i < sp.len() implies #[trigger] sp[i].0 == sort_key(sp[i].1, field) by {
        assert(pairs.contains(sort_spec(pairs, d)[i]));
        let k = choose|k: int| 0 <= k < pairs.len() && pairs[k] == sp[i];
        assert(pairs[k] == (sort_key(m[k], field), m[k]));
    }
    assert forall|i: int, j: int| 0 <= i < j < rest.len() implies if d {
        sort_key(#[trigger] rest[j], field) <= sort_key(#[trigger] rest[i], field)
    } else {
        sort_key(rest[i], field) <= sort_key(rest[j], field)
    } by {
        assert(rest[i] == sp[i].1 && rest[j] == sp[j].1);
        assert(sp[i].0 == sort_key(sp[i].1, field) && sp[j].0 == sort_key(sp[j].1, field));
    }
}

proof fn lemma_cursor_index_bounds(rs: Seq<PaymentRecord>, c: Seq<char>)
    ensures
        super::state::cursor_index(rs, c) matches Some(p) ==> 0 <= p < rs.len(),
    decreases rs.len(),
{
    if rs.len() > 0 && rs[0].order_id@ != c {
        lemma_cursor_index_bounds(rs.drop_first(), c);
    }
}

proof fn lemma_matching_pass(
    payments: Map<Seq<char>, PaymentRecord>,
    ids: Seq<String>,
    f: PaymentFilter,
)
    ensures
        forall|k: int|
            0 <= k < matching_records(payments, ids, Some(f)).len() ==> passes_filter(
                #[trigger] matching_records(payments, ids, Some(f))[k],
                f,
            ),
    decreases ids.len(),
{
    if ids.len() > 0 {
        lemma_matching_pass(payments, ids.drop_last(), f);
        let rest = matching_records(payments, ids.drop_last(), Some(f));
        let all = matching_records(payments, ids, Some(f));
        let id = ids.last()@;
        if payments.dom().contains(id) && passes_filter(payments[id], f) {
            assert(all == rest.push(payments[id]));
            assert forall|k: int| 0 <= k < all.len() implies passes_filter(#[trigger] all[k], f) by {
                if k < rest.len() {
                    assert(all[k] == rest[k]);
                }
            }
        } else {
            assert(all == rest);
        }
    }
}

/// A filtered payment history lists, and counts in its total, only
/// payments within the filter, whatever the cursor and the order: each was
/// paid no earlier than the window's start and no later than its end, has
/// an amount within the bounds, is in the token asked for, and has the
/// status asked for.
pub proof fn law_history_within_filter(
    payments: Map<Seq<char>, PaymentRecord>,
    ids: Seq<String>,
    cursor: Option<String>,
    f: PaymentFilter,
    field: SortField,
    order: SortOrder,
)
    ensures
        forall|k: int|
            0 <= k < history_rest(payments, ids, cursor, Some(f), field, order).len() ==> {
                let r = #[trigger] history_rest(payments, ids, cursor, Some(f), field, order)[k];
                &&& (f.date_start matches Some(start) ==> r.paid_at >= start)
                &&& (f.date_end matches Some(end) ==> r.paid_at <= end)
                &&& (f.amount_min matches Some(min) ==> r.amount >= min)
                &&& (f.amount_max matches Some(max) ==> r.amount <= max)
                &&& (f.token matches Some(t) ==> r.token@ == t@)
                &&& match f.status {
                    StatusFilter::Any => true,
                    StatusFilter::Completed => r.status == PaymentStatus::Completed,
                    StatusFilter::PartiallyRefunded => r.status == PaymentStatus::PartiallyRefunded,
                    StatusFilter::FullyRefunded => r.status == PaymentStatus::FullyRefunded,
                }
            },
{
    let m = matching_records(payments, ids, Some(f));
    let d = order == SortOrder::Descending;
    let pairs = keyed_records(m, field);
    let sp = sort_spec(pairs, d);
    let sorted = sorted_records(m, field, order);
    let rest = history_rest(payments, ids, cursor, Some(f), field, order);
    lemma_matching_pass(payments, ids, f);
    crate::sort::law_sort_keeps_values(pairs, d);
    assert forall|i: int| 0 <= i < sorted.len() implies passes_filter(#[trigger] sorted[i], f) by {
        assert(pairs.contains(sort_spec(pairs, d)[i]));
        let k = choose|k: int| 0 <= k < pairs.len() && pairs[k] == sp[i];
        assert(pairs[k].1 == m[k]);
        assert(sorted[i] == sp[i].1);
    }
    assert forall|k: int| 0 <= k < rest.len() implies passes_filter(#[trigger] rest[k], f) by {
        match cursor {
            None => {},
            Some(c) => {
                match super::state::cursor_index(sorted, c@) {
                    Some(p) => {
                        lemma_cursor_index_bounds(sorted, c@);
                        assert(rest[k] == sorted[p + 1 + k]);
                    },
                    None => {},
                }
            },
        }
    }
}

} // verus!
