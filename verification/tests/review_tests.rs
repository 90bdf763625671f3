use subscript::error::{AppError, ErrorKind};
use subscript::ledger::Ledger;
use subscript::model::{
    BillingCycle, Classification, DomainStatus, ImportStatus, SubscriptionStatus,
};
use subscript::pending_imports::{
    approve_pending_import, approve_pending_import_at, batch_approve_pending_imports,
    batch_approve_pending_imports_at, batch_reject_pending_imports, create_pending_import,
    create_pending_import_at, get_pending_imports, reject_pending_import,
};

fn domain_item(ledger: &mut Ledger, data: &str) -> i64 {
    create_pending_import_at(
        ledger,
        "Renewal".to_string(),
        "billing@registrar.example".to_string(),
        "2024-03-01".to_string(),
        "domain".to_string(),
        data.to_string(),
        0.9f64.to_bits(),
        true,
        "2024-03-02T00:00:00+00:00",
    )
    .unwrap()
}

#[test]
fn test_create_and_get_pending_imports() {
    let mut ledger = Ledger::new();

    let id = create_pending_import(
        &mut ledger,
        "Test Subject".to_string(),
        "test@example.com".to_string(),
        "2024-01-01".to_string(),
        "subscription".to_string(),
        "{\"name\":\"Test\"}".to_string(),
        0.95f64.to_bits(),
        true,
    )
    .unwrap();

    assert!(id > 0);

    let imports = get_pending_imports(&ledger, true).unwrap();
    assert_eq!(imports.len(), 1);
    assert_eq!(imports[0].email_subject, Some("Test Subject".to_string()));
    assert_eq!(imports[0].email_from, "test@example.com");
    assert_eq!(imports[0].extracted_data, "{\"name\":\"Test\"}");
}

#[test]
fn test_approve_pending_import() {
    let mut ledger = Ledger::new();

    let id = create_pending_import(
        &mut ledger,
        "Netflix Receipt".to_string(),
        "info@netflix.com".to_string(),
        "2024-01-01".to_string(),
        "subscription".to_string(),
        "{\"name\":\"Netflix\",\"cost\":15.99,\"currency\":\"USD\",\"billingCycle\":\"monthly\"}"
            .to_string(),
        0.99f64.to_bits(),
        true,
    )
    .unwrap();

    approve_pending_import(&mut ledger, id, None, true).unwrap();

    let imports = get_pending_imports(&ledger, true).unwrap();
    assert_eq!(imports.len(), 0);

    let count = ledger.test.subscriptions().len();
    assert_eq!(count, 1);
}

#[test]
fn test_reject_pending_import() {
    let mut ledger = Ledger::new();

    let id = create_pending_import(
        &mut ledger,
        "Spam".to_string(),
        "spam@example.com".to_string(),
        "2024-01-01".to_string(),
        "junk".to_string(),
        "{}".to_string(),
        0.1f64.to_bits(),
        true,
    )
    .unwrap();

    reject_pending_import(&mut ledger, id, true).unwrap();

    let imports = get_pending_imports(&ledger, true).unwrap();
    assert_eq!(imports.len(), 0);
}

#[test]
fn test_pending_import_lifecycle() {
    let mut ledger = Ledger::new();

    let id = create_pending_import(
        &mut ledger,
        "Subject".to_string(),
        "from@example.com".to_string(),
        "2024-01-01".to_string(),
        "subscription".to_string(),
        "{}".to_string(),
        0.95f64.to_bits(),
        true,
    )
    .expect("Failed to create pending import");
    assert!(id > 0);

    let imports = get_pending_imports(&ledger, true).expect("Failed to get pending imports");
    assert_eq!(imports.len(), 1);
    assert_eq!(imports[0].email_subject, Some("Subject".to_string()));

    reject_pending_import(&mut ledger, id, true).expect("Failed to reject pending import");
    let imports_after = get_pending_imports(&ledger, true).expect("Failed to get pending imports");
    assert_eq!(imports_after.len(), 0);
}

#[test]
fn test_subscription_lifecycle() {
    let mut ledger = Ledger::new();
    let id = create_pending_import_at(
        &mut ledger,
        "Your plan".to_string(),
        "billing@stream.example".to_string(),
        "2024-02-01".to_string(),
        "subscription".to_string(),
        "{\"name\":\"Stream\",\"cost\":9.5,\"currency\":\"EUR\",\"billingCycle\":\"yearly\",\"nextBillingDate\":\"2025-02-01\",\"category\":null}"
            .to_string(),
        1.0f64.to_bits(),
        false,
        "2024-02-02T10:00:00+00:00",
    )
    .unwrap();
    assert_eq!(id, 1);
    assert_eq!(ledger.production.subscriptions().len(), 0);

    approve_pending_import_at(&mut ledger, id, None, false, "2024-02-03T10:00:00+00:00").unwrap();

    let rows = ledger.production.subscriptions();
    assert_eq!(rows.len(), 1);
    assert_eq!(rows[0].id, Some(1));
    assert_eq!(rows[0].name, "Stream");
    assert_eq!(rows[0].amount, 9.5f64.to_bits());
    assert_eq!(rows[0].currency, "EUR");
    assert_eq!(rows[0].periodicity, BillingCycle::Yearly);
    assert_eq!(rows[0].next_date, Some("2025-02-01".to_string()));
    assert_eq!(rows[0].category, None);
    assert_eq!(rows[0].status, SubscriptionStatus::Active);
    assert_eq!(rows[0].notes, None);
    assert_eq!(rows[0].created_at, "2024-02-03T10:00:00+00:00");
    assert_eq!(rows[0].updated_at, "2024-02-03T10:00:00+00:00");
    assert_eq!(ledger.production.pending_imports()[0].status, ImportStatus::Approved);
    assert_eq!(ledger.test.subscriptions().len(), 0);
}

#[test]
fn approving_twice_adds_two_subscriptions_from_two_items() {
    let mut ledger = Ledger::new();
    let data = "{\"name\":\"Box\",\"cost\":3,\"currency\":\"USD\",\"billingCycle\":\"one-time\"}";
    let mut ids = Vec::new();
    for _ in 0..2 {
        ids.push(
            create_pending_import(
                &mut ledger,
                "s".to_string(),
                "f".to_string(),
                "d".to_string(),
                "subscription".to_string(),
                data.to_string(),
                0.5f64.to_bits(),
                true,
            )
            .unwrap(),
        );
    }
    batch_approve_pending_imports(&mut ledger, ids, true).unwrap();
    let rows = ledger.test.subscriptions();
    assert_eq!(rows.len(), 2);
    assert_eq!(rows[0].id, Some(1));
    assert_eq!(rows[1].id, Some(2));
    assert_eq!(rows[1].amount, 3.0f64.to_bits());
    assert_eq!(rows[1].periodicity, BillingCycle::OneTime);
}

#[test]
fn approving_a_new_domain_adds_it_with_defaults() {
    let mut ledger = Ledger::new();
    let id = domain_item(
        &mut ledger,
        "{\"domainName\":\"example.com\",\"expiryDate\":\"2025-01-01\"}",
    );
    approve_pending_import_at(&mut ledger, id, None, true, "t1").unwrap();
    let rows = ledger.test.domains();
    assert_eq!(rows.len(), 1);
    assert_eq!(rows[0].id, Some(1));
    assert_eq!(rows[0].name, "example.com");
    assert_eq!(rows[0].registrar, None);
    assert_eq!(rows[0].amount, None);
    assert_eq!(rows[0].expiry_date, "2025-01-01");
    assert!(!rows[0].auto_renew);
    assert_eq!(rows[0].status, DomainStatus::Active);
    assert_eq!(rows[0].notes, None);
    assert_eq!(rows[0].created_at, "t1");
}

#[test]
fn merging_keeps_stored_fields_where_the_extraction_has_none() {
    let mut ledger = Ledger::new();
    let first = domain_item(
        &mut ledger,
        "{\"domainName\":\"example.com\",\"registrar\":\"Namecheap\",\"cost\":12.99,\"currency\":\"USD\",\"registrationDate\":\"2024-01-01\",\"expiryDate\":\"2025-01-01\",\"autoRenew\":true}",
    );
    let second = domain_item(
        &mut ledger,
        "{\"domainName\":\"example.com\",\"registrar\":null,\"expiryDate\":\"2026-01-01\"}",
    );
    approve_pending_import_at(&mut ledger, first, None, true, "t1").unwrap();
    approve_pending_import_at(&mut ledger, second, None, true, "t2").unwrap();

    let rows = ledger.test.domains();
    assert_eq!(rows.len(), 1);
    assert_eq!(rows[0].id, Some(1));
    assert_eq!(rows[0].registrar, Some("Namecheap".to_string()));
    assert_eq!(rows[0].amount, Some(12.99f64.to_bits()));
    assert_eq!(rows[0].currency, Some("USD".to_string()));
    assert_eq!(rows[0].registration_date, Some("2024-01-01".to_string()));
    assert!(rows[0].auto_renew);
    assert_eq!(rows[0].expiry_date, "2026-01-01");
    assert_eq!(rows[0].created_at, "t1");
    assert_eq!(rows[0].updated_at, "t2");
}

#[test]
fn merging_takes_every_field_that_the_extraction_gives() {
    let mut ledger = Ledger::new();
    let first = domain_item(
        &mut ledger,
        "{\"domainName\":\"a.io\",\"registrar\":\"Old\",\"cost\":1.5,\"currency\":\"USD\",\"registrationDate\":\"2020-01-01\",\"expiryDate\":\"2021-01-01\",\"autoRenew\":true}",
    );
    let second = domain_item(
        &mut ledger,
        "{\"domainName\":\"a.io\",\"registrar\":\"New\",\"cost\":2.5,\"currency\":\"EUR\",\"registrationDate\":\"2020-02-02\",\"expiryDate\":\"2022-01-01\",\"autoRenew\":false}",
    );
    batch_approve_pending_imports_at(&mut ledger, vec![first, second], true, "t").unwrap();
    let rows = ledger.test.domains();
    assert_eq!(rows.len(), 1);
    assert_eq!(rows[0].registrar, Some("New".to_string()));
    assert_eq!(rows[0].amount, Some(2.5f64.to_bits()));
    assert_eq!(rows[0].currency, Some("EUR".to_string()));
    assert_eq!(rows[0].registration_date, Some("2020-02-02".to_string()));
    assert_eq!(rows[0].expiry_date, "2022-01-01");
    assert!(!rows[0].auto_renew);
}

#[test]
fn domains_of_other_names_get_rows_of_their_own() {
    let mut ledger = Ledger::new();
    let a = domain_item(&mut ledger, "{\"domainName\":\"a.io\",\"expiryDate\":\"2021-01-01\"}");
    let b = domain_item(&mut ledger, "{\"domainName\":\"A.io\",\"expiryDate\":\"2022-01-01\"}");
    batch_approve_pending_imports_at(&mut ledger, vec![a, b], true, "t").unwrap();
    let rows = ledger.test.domains();
    assert_eq!(rows.len(), 2);
    assert_eq!(rows[0].name, "a.io");
    assert_eq!(rows[1].name, "A.io");
    assert_eq!(rows[1].id, Some(2));
}

#[test]
fn junk_and_unclassified_items_are_not_approved() {
    let mut ledger = Ledger::new();
    let id = create_pending_import(
        &mut ledger,
        "Spam".to_string(),
        "spam@example.com".to_string(),
        "2024-01-01".to_string(),
        "junk".to_string(),
        "{\"name\":\"X\",\"cost\":1,\"currency\":\"USD\",\"billingCycle\":\"monthly\"}".to_string(),
        0.1f64.to_bits(),
        false,
    )
    .unwrap();
    let before = ledger.clone();
    let r = approve_pending_import(&mut ledger, id, None, false);
    assert!(matches!(r, Err(AppError::Validation(_))));
    assert_eq!(ledger, before);
    assert_eq!(ledger.production.pending_imports()[0].status, ImportStatus::Pending);
    assert_eq!(ledger.production.pending_imports()[0].classification, Some(Classification::Junk));
}

#[test]
fn a_rejected_item_is_not_approved_afterwards() {
    let mut ledger = Ledger::new();
    let id = domain_item(&mut ledger, "{\"domainName\":\"a.io\",\"expiryDate\":\"2021-01-01\"}");
    reject_pending_import(&mut ledger, id, true).unwrap();
    let before = ledger.clone();
    let r = approve_pending_import(&mut ledger, id, None, true);
    assert_eq!(r.unwrap_err().kind(), ErrorKind::Validation);
    assert_eq!(ledger, before);
    assert_eq!(ledger.test.domains().len(), 0);
    assert_eq!(ledger.test.pending_imports()[0].status, ImportStatus::Rejected);
}

#[test]
fn a_decided_item_is_decided_once() {
    let mut ledger = Ledger::new();
    let id = domain_item(&mut ledger, "{\"domainName\":\"a.io\",\"expiryDate\":\"2021-01-01\"}");
    approve_pending_import(&mut ledger, id, None, true).unwrap();
    assert_eq!(
        approve_pending_import(&mut ledger, id, None, true).unwrap_err().kind(),
        ErrorKind::Validation
    );
    assert_eq!(
        reject_pending_import(&mut ledger, id, true).unwrap_err().kind(),
        ErrorKind::Validation
    );
    assert_eq!(ledger.test.pending_imports()[0].status, ImportStatus::Approved);
    assert_eq!(ledger.test.domains().len(), 1);
}

#[test]
fn unknown_identifiers_are_not_found() {
    let mut ledger = Ledger::new();
    assert_eq!(
        approve_pending_import(&mut ledger, 7, None, true).unwrap_err().kind(),
        ErrorKind::NotFound
    );
    assert_eq!(reject_pending_import(&mut ledger, 7, true).unwrap_err().kind(), ErrorKind::NotFound);
    let id = domain_item(&mut ledger, "{}");
    assert_eq!(
        reject_pending_import(&mut ledger, id, false).unwrap_err().kind(),
        ErrorKind::NotFound
    );
}

#[test]
fn data_of_the_wrong_shape_fails_validation_and_changes_nothing() {
    let mut ledger = Ledger::new();
    let id = domain_item(&mut ledger, "{\"domainName\":\"a.io\"}");
    let before = ledger.clone();
    for edited in [
        None,
        Some("not json".to_string()),
        Some("[1]".to_string()),
        Some("{\"domainName\":7,\"expiryDate\":\"2021-01-01\"}".to_string()),
        Some("{\"domainName\":\"a.io\",\"expiryDate\":\"2021-01-01\",\"autoRenew\":\"yes\"}".to_string()),
    ] {
        let r = approve_pending_import(&mut ledger, id, edited, true);
        assert_eq!(r.unwrap_err().kind(), ErrorKind::Validation);
        assert_eq!(ledger, before);
    }
}

#[test]
fn edited_data_takes_the_place_of_the_stored_data() {
    let mut ledger = Ledger::new();
    let id = domain_item(&mut ledger, "{\"domainName\":\"a.io\",\"expiryDate\":\"2021-01-01\"}");
    approve_pending_import(
        &mut ledger,
        id,
        Some("{\"domainName\":\"b.io\",\"expiryDate\":\"2030-01-01\",\"extra\":[1,2]}".to_string()),
        true,
    )
    .unwrap();
    assert_eq!(ledger.test.domains()[0].name, "b.io");
    assert_eq!(ledger.test.domains()[0].expiry_date, "2030-01-01");
    assert_eq!(
        ledger.test.pending_imports()[0].extracted_data,
        "{\"domainName\":\"a.io\",\"expiryDate\":\"2021-01-01\"}"
    );
}

#[test]
fn an_unknown_billing_cycle_fails_validation() {
    let mut ledger = Ledger::new();
    let id = create_pending_import(
        &mut ledger,
        "s".to_string(),
        "f".to_string(),
        "d".to_string(),
        "subscription".to_string(),
        "{\"name\":\"X\",\"cost\":1,\"currency\":\"USD\",\"billingCycle\":\"weekly\"}".to_string(),
        0.5f64.to_bits(),
        true,
    )
    .unwrap();
    assert_eq!(
        approve_pending_import(&mut ledger, id, None, true).unwrap_err().kind(),
        ErrorKind::Validation
    );
    assert_eq!(ledger.test.subscriptions().len(), 0);
}

#[test]
fn creation_checks_class_and_confidence() {
    let mut ledger = Ledger::new();
    let make = |ledger: &mut Ledger, class: &str, confidence: f64| {
        create_pending_import(
            ledger,
            "s".to_string(),
            "f".to_string(),
            "d".to_string(),
            class.to_string(),
            "{}".to_string(),
            confidence.to_bits(),
            true,
        )
    };
    assert_eq!(make(&mut ledger, "invoice", 0.5).unwrap_err().kind(), ErrorKind::Validation);
    assert_eq!(make(&mut ledger, "Domain", 0.5).unwrap_err().kind(), ErrorKind::Validation);
    assert_eq!(make(&mut ledger, "domain", 1.5).unwrap_err().kind(), ErrorKind::Validation);
    assert_eq!(make(&mut ledger, "domain", -0.1).unwrap_err().kind(), ErrorKind::Validation);
    assert_eq!(make(&mut ledger, "domain", f64::NAN).unwrap_err().kind(), ErrorKind::Validation);
    assert_eq!(ledger.test.pending_imports().len(), 0);
    assert_eq!(make(&mut ledger, "domain", 0.0).unwrap(), 1);
    assert_eq!(make(&mut ledger, "junk", -0.0).unwrap(), 2);
    assert_eq!(make(&mut ledger, "subscription", 1.0).unwrap(), 3);
    assert_eq!(ledger.test.pending_imports()[2].confidence, Some(1.0f64.to_bits()));
    assert_eq!(ledger.production.pending_imports().len(), 0);
}

#[test]
fn pending_items_are_read_newest_first() {
    let mut ledger = Ledger::new();
    let a = domain_item(&mut ledger, "a");
    let b = domain_item(&mut ledger, "b");
    let c = domain_item(&mut ledger, "c");
    reject_pending_import(&mut ledger, b, true).unwrap();
    let read = get_pending_imports(&ledger, true).unwrap();
    assert_eq!(read.len(), 2);
    assert_eq!(read[0].id, Some(c));
    assert_eq!(read[1].id, Some(a));
    assert_eq!(read[0].extracted_data, "c");
    assert_eq!(read[0].status, ImportStatus::Pending);
    assert_eq!(read[0].created_at, "2024-03-02T00:00:00+00:00");
    assert_eq!(get_pending_imports(&ledger, false).unwrap().len(), 0);
}

#[test]
fn pending_items_are_ordered_by_their_time_of_creation() {
    let mut ledger = Ledger::new();
    let mut made = Vec::new();
    for (data, time) in [
        ("first", "2024-03-02T10:00:00+00:00"),
        ("second", "2024-03-05T10:00:00+00:00"),
        ("third", "2024-03-01T10:00:00+00:00"),
        ("fourth", "2024-03-05T10:00:00+00:00"),
        ("fifth", "2024-03-05T09:59:59+00:00"),
        ("sixth", "2024-03-05T10:00:00+00:00Z"),
    ] {
        made.push(
            create_pending_import_at(
                &mut ledger,
                "s".to_string(),
                "f".to_string(),
                "d".to_string(),
                "junk".to_string(),
                data.to_string(),
                0,
                false,
                time,
            )
            .unwrap(),
        );
    }
    let read: Vec<String> = get_pending_imports(&ledger, false)
        .unwrap()
        .into_iter()
        .map(|p| p.extracted_data)
        .collect();
    assert_eq!(read, vec!["sixth", "fourth", "second", "fifth", "first", "third"]);

    reject_pending_import(&mut ledger, made[3], false).unwrap();
    let read: Vec<Option<i64>> =
        get_pending_imports(&ledger, false).unwrap().into_iter().map(|p| p.id).collect();
    assert_eq!(read, vec![Some(6), Some(2), Some(5), Some(1), Some(3)]);
    assert_eq!(ledger.production.pending_imports().len(), 6);
}

#[test]
fn extracted_data_is_read_back_as_it_was_written() {
    let mut ledger = Ledger::new();
    let data = "{ \"b\" : 1,\n\t\"a\":  [ 2 , 3 ], \"u\": \"\\u00e9 \u{e9}\" }  ";
    domain_item(&mut ledger, data);
    let read = get_pending_imports(&ledger, true).unwrap();
    assert_eq!(read[0].extracted_data.as_bytes(), data.as_bytes());
}

#[test]
fn a_batch_stops_at_the_first_failure() {
    let mut ledger = Ledger::new();
    let a = domain_item(&mut ledger, "{\"domainName\":\"a.io\",\"expiryDate\":\"2021-01-01\"}");
    let b = domain_item(&mut ledger, "{\"domainName\":\"b.io\"}");
    let c = domain_item(&mut ledger, "{\"domainName\":\"c.io\",\"expiryDate\":\"2021-01-01\"}");
    let r = batch_approve_pending_imports(&mut ledger, vec![a, b, c], true);
    assert_eq!(r.unwrap_err().kind(), ErrorKind::Validation);
    let items = ledger.test.pending_imports();
    assert_eq!(items[0].status, ImportStatus::Approved);
    assert_eq!(items[1].status, ImportStatus::Pending);
    assert_eq!(items[2].status, ImportStatus::Pending);
    assert_eq!(ledger.test.domains().len(), 1);

    let r = batch_reject_pending_imports(&mut ledger, vec![b, a, c], true);
    assert_eq!(r.unwrap_err().kind(), ErrorKind::Validation);
    let items = ledger.test.pending_imports();
    assert_eq!(items[0].status, ImportStatus::Approved);
    assert_eq!(items[1].status, ImportStatus::Rejected);
    assert_eq!(items[2].status, ImportStatus::Pending);

    assert!(batch_reject_pending_imports(&mut ledger, vec![], true).is_ok());
    assert!(batch_reject_pending_imports(&mut ledger, vec![c], true).is_ok());
    assert_eq!(
        batch_reject_pending_imports(&mut ledger, vec![99], true).unwrap_err().kind(),
        ErrorKind::NotFound
    );
}
