use pulsar::search::{
    MerchantRecord, MerchantSearchQuery, PaymentRecord, PaymentSearchQuery, PaymentSortField,
    PaymentStatusFilter, RefundRecord, RefundSearchQuery, SearchService, SortOrder, VecIndex,
};

fn payments() -> Vec<PaymentRecord> {
    vec![
        PaymentRecord { order_id: "P1".into(), merchant_address: "M1".into(), payer_address: "A1".into(), token_address: "T1".into(), amount: 500, refunded_amount: 0, status: "Completed".into(), paid_at: 1000 },
        PaymentRecord { order_id: "P2".into(), merchant_address: "M2".into(), payer_address: "A2".into(), token_address: "T1".into(), amount: 200, refunded_amount: 0, status: "Completed".into(), paid_at: 2000 },
        PaymentRecord { order_id: "P3".into(), merchant_address: "M1".into(), payer_address: "A1".into(), token_address: "T1".into(), amount: 800, refunded_amount: 0, status: "PartiallyRefunded".into(), paid_at: 3000 },
    ]
}

fn svc() -> SearchService<VecIndex<PaymentRecord>, VecIndex<MerchantRecord>, VecIndex<RefundRecord>> {
    SearchService::new(
        VecIndex { items: payments() },
        VecIndex {
            items: vec![
                MerchantRecord { address: "M1".into(), name: "Coffee House".into(), category: "Food".into(), active: true, whitelisted: false, registered_at: 100 },
                MerchantRecord { address: "M2".into(), name: "Tech Store".into(), category: "Digital".into(), active: false, whitelisted: true, registered_at: 200 },
            ],
        },
        VecIndex {
            items: vec![RefundRecord { refund_id: "R1".into(), order_id: "P1".into(), amount: 100, status: "Pending".into(), initiated_by: "A1".into(), initiated_at: 1500 }],
        },
    )
}

#[test]
fn filter_by_merchant() {
    let mut q = PaymentSearchQuery::all();
    q.merchant_address = Some("M1".into());
    let page = svc().search_payments(q);
    assert_eq!(page.records.len(), 2);
}

#[test]
fn filter_by_amount_range() {
    let mut q = PaymentSearchQuery::all();
    q.amount_min = Some(300);
    q.amount_max = Some(600);
    let page = svc().search_payments(q);
    assert_eq!(page.records.len(), 1);
    assert_eq!(page.records[0].order_id, "P1");
}

#[test]
fn filter_by_date_range() {
    let mut q = PaymentSearchQuery::all();
    q.date_start = Some(1500);
    q.date_end = Some(2500);
    let page = svc().search_payments(q);
    assert_eq!(page.records.len(), 1);
    assert_eq!(page.records[0].order_id, "P2");
}

#[test]
fn sort_by_amount_ascending() {
    let mut q = PaymentSearchQuery::all();
    q.sort_field = Some(PaymentSortField::Amount);
    q.sort_order = Some(SortOrder::Ascending);
    let page = svc().search_payments(q);
    assert_eq!(page.records[0].amount, 200);
}

#[test]
fn cursor_pagination() {
    let mut q = PaymentSearchQuery::all();
    q.limit = Some(2);
    q.sort_field = Some(PaymentSortField::Date);
    q.sort_order = Some(SortOrder::Descending);
    let page1 = svc().search_payments(q.clone());
    assert_eq!(page1.records.len(), 2);
    assert!(page1.next_cursor.is_some());
    let mut q2 = q;
    q2.cursor = page1.next_cursor;
    let page2 = svc().search_payments(q2);
    assert_eq!(page2.records.len(), 1);
    assert!(page2.next_cursor.is_none());
}

#[test]
fn merchant_text_search() {
    let mut q = MerchantSearchQuery::all();
    q.name_contains = Some("coffee".into());
    let page = svc().search_merchants(q);
    assert_eq!(page.records.len(), 1);
}

#[test]
fn merchant_filter_active() {
    let mut q = MerchantSearchQuery::all();
    q.active = Some(false);
    let page = svc().search_merchants(q);
    assert_eq!(page.records.len(), 1);
    assert_eq!(page.records[0].address, "M2");
}

#[test]
fn refund_filter_by_order() {
    let mut q = RefundSearchQuery::all();
    q.order_id = Some("P1".into());
    let page = svc().search_refunds(q);
    assert_eq!(page.records.len(), 1);
}

// ── Own scenarios ────────────────────────────────────────────────────────────

#[test]
fn default_sort_is_newest_first_and_statuses_filter() {
    let page = svc().search_payments(PaymentSearchQuery::all());
    let ids: Vec<&str> = page.records.iter().map(|r| r.order_id.as_str()).collect();
    assert_eq!(ids, vec!["P3", "P2", "P1"]);
    assert_eq!(page.total, 3);
    let mut q = PaymentSearchQuery::all();
    q.statuses = Some(vec![PaymentStatusFilter::PartiallyRefunded]);
    let page = svc().search_payments(q);
    assert_eq!(page.records.len(), 1);
    assert_eq!(page.records[0].order_id, "P3");
    // "Any" is matched by name, and no payment has that status.
    let mut q = PaymentSearchQuery::all();
    q.statuses = Some(vec![PaymentStatusFilter::Any]);
    assert_eq!(svc().search_payments(q).total, 0);
}

#[test]
fn ties_keep_index_order_and_case_is_ignored() {
    let mut q = PaymentSearchQuery::all();
    q.sort_field = Some(PaymentSortField::MerchantAddress);
    q.sort_order = Some(SortOrder::Ascending);
    q.payer_address = Some("a1".into());
    let page = svc().search_payments(q);
    let ids: Vec<&str> = page.records.iter().map(|r| r.order_id.as_str()).collect();
    assert_eq!(ids, vec!["P1", "P3"]);
    // Merchants sort by name ascending by default.
    let page = svc().search_merchants(MerchantSearchQuery::all());
    assert_eq!(page.records[0].name, "Coffee House");
    // Refund statuses compare in any case; an unknown cursor starts at the top.
    let mut q = RefundSearchQuery::all();
    q.statuses = Some(vec!["PENDING".into()]);
    q.cursor = Some("nope".into());
    assert_eq!(svc().search_refunds(q).records.len(), 1);
}

#[test]
fn limits_default_and_cap() {
    let items: Vec<MerchantRecord> = (0..150)
        .map(|i| MerchantRecord { address: format!("M{:03}", i), name: format!("N{:03}", i), category: "Food".into(), active: true, whitelisted: false, registered_at: i })
        .collect();
    let s = SearchService::new(VecIndex { items: payments() }, VecIndex { items }, VecIndex { items: vec![] });
    let page = s.search_merchants(MerchantSearchQuery::all());
    assert_eq!(page.records.len(), 20);
    assert_eq!(page.next_cursor.as_deref(), Some("M019"));
    let mut q = MerchantSearchQuery::all();
    q.limit = Some(1000);
    let page = s.search_merchants(q);
    assert_eq!(page.records.len(), 100);
    assert_eq!(page.total, 150);
}
