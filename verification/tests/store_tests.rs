use subscript::error::{AppError, ErrorKind};
use subscript::ledger::Ledger;
use subscript::model::{
    in_unit_interval, BillingCycle, Classification, DatabaseType, Domain, DomainExtraction,
    DomainStatus, ImportStatus, PendingImport, Receipt, Subscription, SubscriptionExtraction,
    SubscriptionStatus, SyncLog, SyncStatus,
};
use subscript::review::{create_domain_from_import, create_subscription_from_import};
use subscript::store::Store;

fn subscription(id: Option<i64>) -> Subscription {
    Subscription {
        id,
        name: "N".to_string(),
        amount: 1.0f64.to_bits(),
        currency: "USD".to_string(),
        periodicity: BillingCycle::Monthly,
        next_date: None,
        category: None,
        status: SubscriptionStatus::Paused,
        notes: Some("kept".to_string()),
        created_at: "c".to_string(),
        updated_at: "u".to_string(),
    }
}

fn domain(id: i64, name: &str) -> Domain {
    Domain {
        id: Some(id),
        name: name.to_string(),
        registrar: None,
        amount: None,
        currency: None,
        registration_date: None,
        expiry_date: "2030-01-01".to_string(),
        auto_renew: false,
        status: DomainStatus::Expired,
        notes: None,
        created_at: "c".to_string(),
        updated_at: "u".to_string(),
    }
}

fn receipt(id: i64, subscription_id: Option<i64>, domain_id: Option<i64>) -> Receipt {
    Receipt {
        id: Some(id),
        subscription_id,
        domain_id,
        email_subject: None,
        email_from: None,
        email_date: "d".to_string(),
        file_type: None,
        file_data: None,
        raw_email_body: None,
        created_at: "c".to_string(),
    }
}

fn item(id: i64, class: Option<Classification>, data: &str, receipt_id: Option<i64>) -> PendingImport {
    PendingImport {
        id: Some(id),
        email_subject: None,
        email_from: "f".to_string(),
        email_date: None,
        classification: class,
        confidence: None,
        extracted_data: data.to_string(),
        receipt_id,
        status: ImportStatus::Pending,
        created_at: "c".to_string(),
    }
}

fn log(id: i64) -> SyncLog {
    SyncLog {
        id: Some(id),
        sync_started_at: "s".to_string(),
        sync_completed_at: None,
        emails_processed: 0,
        emails_imported: 0,
        status: SyncStatus::Running,
        error_message: None,
        created_at: "c".to_string(),
    }
}

#[test]
fn a_new_store_is_empty() {
    let store = Store::new();
    assert!(store.subscriptions().is_empty());
    assert!(store.domains().is_empty());
    assert!(store.receipts().is_empty());
    assert!(store.pending_imports().is_empty());
    assert!(store.sync_log().is_empty());
    assert!(store.has_subscription_room());
    assert_eq!(Store::restore(vec![], vec![], vec![], vec![], vec![]).unwrap(), store);
    let ledger = Ledger::new();
    assert_eq!(ledger.store(DatabaseType::Production), &store);
    assert_eq!(ledger.store(DatabaseType::Test), &store);
    assert_eq!(DatabaseType::for_mode(true), DatabaseType::Test);
    assert_eq!(DatabaseType::for_mode(false), DatabaseType::Production);
}

#[test]
fn a_restored_store_goes_on_after_its_last_identifiers() {
    let mut store = Store::restore(
        vec![subscription(Some(2)), subscription(Some(5))],
        vec![domain(1, "a.io"), domain(4, "b.io")],
        vec![receipt(3, None, Some(4))],
        vec![item(7, Some(Classification::Domain), "{}", Some(3))],
        vec![log(9)],
    )
    .unwrap();
    assert_eq!(store.find_pending_import(7), Some(0));
    assert_eq!(store.find_pending_import(1), None);
    assert_eq!(store.find_receipt(3), Some(0));
    assert_eq!(store.find_sync_log(9), Some(0));
    assert_eq!(store.find_domain("b.io"), Some(1));
    assert_eq!(store.find_domain("B.io"), None);
    assert_eq!(store.domain_at(1).id, Some(4));
    assert_eq!(store.receipt_at(0).domain_id, Some(4));
    assert_eq!(store.pending_import_at(0).receipt_id, Some(3));
    assert_eq!(store.sync_log_at(0).status, SyncStatus::Running);

    let id = create_subscription_from_import(
        &mut store,
        SubscriptionExtraction {
            name: "New".to_string(),
            amount: 2.0f64.to_bits(),
            currency: "EUR".to_string(),
            periodicity: BillingCycle::Yearly,
            next_date: None,
            category: Some("c".to_string()),
        },
        "now",
    )
    .unwrap();
    assert_eq!(id, 6);
    assert_eq!(store.subscriptions()[2].id, Some(6));
    assert_eq!(store.subscriptions()[0].notes, Some("kept".to_string()));

    let extraction = DomainExtraction {
        name: "c.io".to_string(),
        registrar: None,
        amount: None,
        currency: None,
        registration_date: None,
        expiry_date: "2031-01-01".to_string(),
        auto_renew: Some(true),
    };
    assert_eq!(create_domain_from_import(&mut store, extraction.clone(), "now").unwrap(), 5);
    assert!(store.domains()[2].auto_renew);
    let mut again = extraction;
    again.name = "a.io".to_string();
    again.auto_renew = None;
    assert_eq!(create_domain_from_import(&mut store, again, "later").unwrap(), 1);
    assert_eq!(store.domains().len(), 3);
    assert_eq!(store.domains()[0].expiry_date, "2031-01-01");
    assert_eq!(store.domains()[0].status, DomainStatus::Expired);
    assert_eq!(store.domains()[0].updated_at, "later");
    assert_eq!(store.domains()[0].created_at, "c");
}

#[test]
fn rows_that_no_store_can_hold_are_refused() {
    let refused = |r: Result<Store, AppError>| {
        assert_eq!(r.unwrap_err().kind(), ErrorKind::Validation);
    };
    refused(Store::restore(vec![subscription(None)], vec![], vec![], vec![], vec![]));
    refused(Store::restore(vec![subscription(Some(0))], vec![], vec![], vec![], vec![]));
    refused(Store::restore(
        vec![subscription(Some(2)), subscription(Some(2))],
        vec![],
        vec![],
        vec![],
        vec![],
    ));
    refused(Store::restore(
        vec![subscription(Some(3)), subscription(Some(2))],
        vec![],
        vec![],
        vec![],
        vec![],
    ));
    refused(Store::restore(vec![subscription(Some(i64::MAX))], vec![], vec![], vec![], vec![]));
    refused(Store::restore(vec![], vec![domain(1, "a.io"), domain(2, "a.io")], vec![], vec![], vec![]));
    refused(Store::restore(vec![], vec![], vec![receipt(1, Some(1), Some(1))], vec![], vec![]));
    refused(Store::restore(vec![], vec![], vec![receipt(-1, None, None)], vec![], vec![]));
    let mut unsure = item(1, None, "{}", None);
    unsure.confidence = Some(1.25f64.to_bits());
    refused(Store::restore(vec![], vec![], vec![], vec![unsure], vec![]));
    refused(Store::restore(vec![], vec![], vec![], vec![], vec![log(2), log(1)]));

    let mut sure = item(1, None, "{}", None);
    sure.confidence = Some(1.0f64.to_bits());
    assert!(Store::restore(
        vec![subscription(Some(i64::MAX - 1))],
        vec![domain(1, "a.io"), domain(2, "a.io ")],
        vec![receipt(1, Some(1), None), receipt(2, None, Some(7))],
        vec![sure],
        vec![log(1), log(2)],
    )
    .is_ok());
}

#[test]
fn a_full_table_takes_no_more_rows() {
    let mut store =
        Store::restore(vec![subscription(Some(i64::MAX - 1))], vec![], vec![], vec![], vec![])
            .unwrap();
    assert!(!store.has_subscription_room());
    assert!(store.has_domain_room());
    let before = store.clone();
    let r = create_subscription_from_import(
        &mut store,
        SubscriptionExtraction {
            name: "New".to_string(),
            amount: 0,
            currency: "EUR".to_string(),
            periodicity: BillingCycle::Yearly,
            next_date: None,
            category: None,
        },
        "now",
    );
    assert_eq!(r.unwrap_err().kind(), ErrorKind::Internal);
    assert_eq!(store, before);
}

#[test]
fn a_receipt_is_linked_to_one_kind_of_entity_only() {
    let subscription_data =
        "{\"name\":\"N\",\"cost\":1,\"currency\":\"USD\",\"billingCycle\":\"monthly\"}";
    let domain_data = "{\"domainName\":\"a.io\",\"expiryDate\":\"2030-01-01\"}";
    let mut store = Store::restore(
        vec![],
        vec![],
        vec![receipt(1, None, None)],
        vec![
            item(1, Some(Classification::Domain), domain_data, Some(1)),
            item(2, Some(Classification::Subscription), subscription_data, Some(1)),
            item(3, Some(Classification::Domain), domain_data, Some(1)),
            item(4, Some(Classification::Subscription), subscription_data, Some(8)),
        ],
        vec![],
    )
    .unwrap();
    store.approve(1, None, "t").unwrap();
    assert_eq!(store.receipts()[0].domain_id, Some(1));
    let before = store.clone();
    assert_eq!(store.approve(2, None, "t").unwrap_err().kind(), ErrorKind::Validation);
    assert_eq!(store, before);
    store.approve(3, None, "t").unwrap();
    assert_eq!(store.receipts()[0].domain_id, Some(1));
    assert_eq!(store.domains().len(), 1);
    store.approve(4, None, "t").unwrap();
    assert_eq!(store.subscriptions().len(), 1);
    assert_eq!(store.receipts()[0].subscription_id, None);
    assert_eq!(store.pending().len(), 1);
    assert_eq!(store.pending()[0].id, Some(2));
}

#[test]
fn an_item_without_a_class_is_not_approved() {
    let mut store = Store::restore(
        vec![],
        vec![],
        vec![],
        vec![item(1, None, "{\"domainName\":\"a.io\",\"expiryDate\":\"2030-01-01\"}", None)],
        vec![],
    )
    .unwrap();
    let before = store.clone();
    assert!(matches!(store.approve(1, None, "t"), Err(AppError::Validation(_))));
    assert_eq!(store, before);
    assert!(store.reject_all(&vec![1]).is_ok());
    assert_eq!(store.approve_all(&vec![1], "t").unwrap_err().kind(), ErrorKind::Validation);
}

#[test]
fn the_classes_have_their_names() {
    for class in [Classification::Subscription, Classification::Domain, Classification::Junk] {
        assert_eq!(Classification::parse(class.name()), Some(class));
    }
    assert_eq!(Classification::Junk.name(), "junk");
    assert_eq!(Classification::parse("Junk"), None);
    for status in [ImportStatus::Pending, ImportStatus::Approved, ImportStatus::Rejected] {
        assert_eq!(ImportStatus::parse(status.name()), Some(status));
    }
    assert_eq!(ImportStatus::Approved.name(), "approved");
    for status in [SyncStatus::Running, SyncStatus::Completed, SyncStatus::Failed] {
        assert_eq!(SyncStatus::parse(status.name()), Some(status));
    }
    assert_eq!(SyncStatus::Completed.name(), "completed");
    for cycle in [BillingCycle::Monthly, BillingCycle::Yearly, BillingCycle::OneTime] {
        assert_eq!(BillingCycle::parse(cycle.name()), Some(cycle));
    }
    assert_eq!(BillingCycle::OneTime.name(), "one-time");
    assert_eq!(BillingCycle::parse("onetime"), None);
    for status in
        [SubscriptionStatus::Active, SubscriptionStatus::Paused, SubscriptionStatus::Cancelled]
    {
        assert_eq!(SubscriptionStatus::parse(status.name()), Some(status));
    }
    for status in [DomainStatus::Active, DomainStatus::Expired, DomainStatus::PendingRenewal] {
        assert_eq!(DomainStatus::parse(status.name()), Some(status));
    }
    assert_eq!(DomainStatus::PendingRenewal.name(), "pending-renewal");
    assert_eq!(DomainStatus::parse(""), None);
}

#[test]
fn the_unit_interval_is_told_from_the_bits() {
    for inside in [0.0f64, -0.0, 1.0, 0.5, f64::MIN_POSITIVE, 5e-324, 0.9999999999999999] {
        assert!(in_unit_interval(inside.to_bits()));
    }
    for outside in [1.0000000000000002f64, -5e-324, -1.0, 2.0, f64::INFINITY, f64::NEG_INFINITY, f64::NAN]
    {
        assert!(!in_unit_interval(outside.to_bits()));
    }
}

#[test]
fn an_error_has_a_class_and_a_message() {
    let kinds = [
        ErrorKind::Transport,
        ErrorKind::Conversion,
        ErrorKind::Extraction,
        ErrorKind::Validation,
        ErrorKind::NotFound,
        ErrorKind::Internal,
    ];
    for kind in kinds {
        let e = AppError::new(kind, "why".to_string());
        assert_eq!(e.kind(), kind);
        assert_eq!(e.message(), "why");
    }
    assert_eq!(AppError::new(ErrorKind::NotFound, "x".to_string()), AppError::NotFound("x".to_string()));
}
