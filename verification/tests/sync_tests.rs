use subscript::error::{AppError, ErrorKind};
use subscript::ledger::Ledger;
use subscript::model::{
    AppSettings, Attachment, Classification, DatabaseType, EmailContent, ImportStatus, SyncStatus,
};
use subscript::ollama::{LlmExtractionResult, OllamaService};
use subscript::sync::{
    count_imported, route, ItemOutcome, RunSummary, SyncAction, SyncEvent, SyncPhase, SyncService,
};

fn settings() -> AppSettings {
    AppSettings {
        imap_server: "imap.example.com".to_string(),
        imap_port: 993,
        imap_username: "me@example.com".to_string(),
        imap_use_ssl: true,
        ollama_endpoint: "http://localhost:11434".to_string(),
        ollama_model: "llama3".to_string(),
        default_currency: "USD".to_string(),
        sync_interval_minutes: 30,
        theme: "light".to_string(),
    }
}

fn message(subject: &str, body: &str) -> Vec<u8> {
    format!("Subject: {}\nFrom: shop@example.com\nDate: today\nContent-Type: text/html\n\n{}", subject, body)
        .into_bytes()
}

fn answer(class: &str) -> String {
    format!("Here you go: {{\"type\":\"{}\",\"confidence\":0.8,\"data\":{{\"name\":\"N\"}}}}", class)
}

#[test]
fn a_run_without_mail_settings_does_nothing() {
    for (server, user, password, endpoint, port) in [
        ("", "me", "pw", "http://h", 993),
        ("host", "", "pw", "http://h", 993),
        ("host", "me", "", "http://h", 993),
        ("host", "me", "pw", "", 993),
        ("host", "me", "pw", "http://h", -1),
        ("host", "me", "pw", "http://h", 65536),
        ("host", "me", "pw", "http://h", 70000),
    ] {
        let mut ledger = Ledger::new();
        let mut s = settings();
        s.imap_server = server.to_string();
        s.imap_username = user.to_string();
        s.ollama_endpoint = endpoint.to_string();
        s.imap_port = port;
        let (run, action) = SyncService::run_sync(&mut ledger, &s, password, false);
        assert_eq!(
            action,
            SyncAction::Done(RunSummary {
                skipped: true,
                status: SyncStatus::Completed,
                processed: 0,
                imported: 0,
                error_message: None,
            })
        );
        assert_eq!(run.phase(), SyncPhase::Finished);
        assert_eq!(run.log_id(), None);
        assert_eq!(ledger, Ledger::new());
    }
}

#[test]
fn the_ends_of_the_port_range_are_ports() {
    for (setting, port) in [(0, 0u16), (1, 1), (65535, 65535)] {
        let mut ledger = Ledger::new();
        let mut s = settings();
        s.imap_port = setting;
        let (_, action) = SyncService::run_sync(&mut ledger, &s, "pw", false);
        match action {
            SyncAction::FetchMail(mail) => assert_eq!(mail.port(), port),
            other => panic!("unexpected action {:?}", other),
        }
    }
}

#[test]
fn a_run_starts_by_asking_for_the_mail() {
    let mut ledger = Ledger::new();
    let (run, action) = SyncService::run_sync_at(&mut ledger, &settings(), "pw", true, "t0");
    match action {
        SyncAction::FetchMail(mail) => {
            assert_eq!(mail.server(), "imap.example.com");
            assert_eq!(mail.port(), 993);
            assert_eq!(mail.username(), "me@example.com");
            assert_eq!(mail.password(), "pw");
            assert!(mail.use_ssl());
        }
        other => panic!("unexpected action {:?}", other),
    }
    assert_eq!(run.phase(), SyncPhase::AwaitingMail);
    assert!(run.test_mode());
    assert_eq!(run.log_id(), Some(1));
    assert_eq!(ledger.production.sync_log().len(), 0);
    let log = &ledger.test.sync_log()[0];
    assert_eq!(log.id, Some(1));
    assert_eq!(log.status, SyncStatus::Running);
    assert_eq!(log.sync_started_at, "t0");
    assert_eq!(log.sync_completed_at, None);
    assert_eq!(log.created_at, "t0");
}

#[test]
fn a_refused_login_fails_the_run_with_nothing_processed() {
    let mut ledger = Ledger::new();
    let (mut run, _) = SyncService::run_sync_at(&mut ledger, &settings(), "pw", false, "t0");
    let action = run.step_at(
        &mut ledger,
        SyncEvent::MailFetched(Err("Failed to login to IMAP server: no".to_string())),
        "t1",
    );
    assert_eq!(
        action,
        SyncAction::Done(RunSummary {
            skipped: false,
            status: SyncStatus::Failed,
            processed: 0,
            imported: 0,
            error_message: Some("Failed to login to IMAP server: no".to_string()),
        })
    );
    assert_eq!(run.phase(), SyncPhase::Finished);
    let log = &ledger.production.sync_log()[0];
    assert_eq!(log.status, SyncStatus::Failed);
    assert_eq!(log.emails_processed, 0);
    assert_eq!(log.emails_imported, 0);
    assert_eq!(log.error_message, Some("Failed to login to IMAP server: no".to_string()));
    assert_eq!(log.sync_completed_at, None);
    assert_eq!(ledger.production.receipts().len(), 0);
    assert_eq!(ledger.production.pending_imports().len(), 0);
}

#[test]
fn one_failed_conversion_does_not_stop_the_run() {
    let mut ledger = Ledger::new();
    let (mut run, _) = SyncService::run_sync_at(&mut ledger, &settings(), "pw", false, "t0");
    let fetched = vec![
        Ok(message("one", "<p>1</p>")),
        Ok(message("two", "<p>2</p>")),
        Ok(message("three", "<p>3</p>")),
    ];
    let mut action = run.step_at(&mut ledger, SyncEvent::MailFetched(Ok(fetched)), "t1");
    let mut seen = 0;
    let summary = loop {
        action = match action {
            SyncAction::Convert { data, extension } => {
                seen += 1;
                assert_eq!(extension, ".html");
                assert_eq!(data, format!("<p>{}</p>", seen).into_bytes());
                assert_eq!(run.phase(), SyncPhase::AwaitingConversion);
                if seen == 2 {
                    run.step_at(&mut ledger, SyncEvent::Converted(Err("boom".to_string())), "t2")
                } else {
                    run.step_at(&mut ledger, SyncEvent::Converted(Ok(format!("md {}", seen))), "t2")
                }
            }
            SyncAction::Generate(request) => {
                assert_eq!(request.url, "http://localhost:11434/api/generate");
                assert_eq!(request.model, "llama3");
                assert!(!request.stream);
                assert_eq!(request.prompt, OllamaService::build_prompt(&format!("md {}", seen)));
                assert_eq!(run.phase(), SyncPhase::AwaitingGeneration);
                run.step_at(&mut ledger, SyncEvent::Generated(Ok(answer("subscription"))), "t3")
            }
            SyncAction::Done(summary) => break summary,
            other => panic!("unexpected action {:?}", other),
        };
    };
    assert_eq!(
        summary,
        RunSummary {
            skipped: false,
            status: SyncStatus::Completed,
            processed: 3,
            imported: 2,
            error_message: None,
        }
    );
    assert_eq!(seen, 3);
    assert_eq!(
        run.outcomes(),
        &vec![
            ItemOutcome::Imported(1),
            ItemOutcome::Failed(AppError::Conversion("boom".to_string())),
            ItemOutcome::Imported(2),
        ]
    );
    let log = &ledger.production.sync_log()[0];
    assert_eq!(log.status, SyncStatus::Completed);
    assert_eq!(log.emails_processed, 3);
    assert_eq!(log.emails_imported, 2);
    assert_eq!(log.sync_completed_at, Some("t3".to_string()));
    assert_eq!(log.error_message, None);

    let receipts = ledger.production.receipts();
    assert_eq!(receipts.len(), 2);
    assert_eq!(receipts[1].id, Some(2));
    assert_eq!(receipts[1].email_subject, Some("three".to_string()));
    assert_eq!(receipts[1].email_from, Some("shop@example.com".to_string()));
    assert_eq!(receipts[1].email_date, "today");
    assert_eq!(receipts[1].raw_email_body, Some("<p>3</p>".to_string()));
    assert_eq!(receipts[1].file_type, None);
    assert_eq!(receipts[1].file_data, None);
    assert_eq!(receipts[1].subscription_id, None);
    assert_eq!(receipts[1].created_at, "t3");
    let items = ledger.production.pending_imports();
    assert_eq!(items.len(), 2);
    assert_eq!(items[1].receipt_id, Some(2));
    assert_eq!(items[1].classification, Some(Classification::Subscription));
    assert_eq!(items[1].confidence, Some(0.8f64.to_bits()));
    assert_eq!(items[1].extracted_data, "{\"name\":\"N\"}");
    assert_eq!(items[1].status, ImportStatus::Pending);
    assert_eq!(items[1].email_subject, Some("three".to_string()));
    assert_eq!(ledger.test, Ledger::new().test);
}

#[test]
fn every_kind_of_failure_is_kept_to_its_message() {
    let mut ledger = Ledger::new();
    let (mut run, _) = SyncService::run_sync_at(&mut ledger, &settings(), "pw", true, "t0");
    let fetched = vec![
        Err("timeout".to_string()),
        Ok(b" not a message".to_vec()),
        Ok(message("a", "x")),
        Ok(message("b", "x")),
        Ok(message("c", "x")),
        Ok(message("d", "x")),
        Ok(message("e", "x")),
        Err("gone".to_string()),
    ];
    let mut action = run.step_at(&mut ledger, SyncEvent::MailFetched(Ok(fetched)), "t1");
    let answers = [
        Err("connection refused".to_string()),
        Ok("no json here".to_string()),
        Ok(answer("invoice")),
        Ok("{\"type\":\"domain\",\"confidence\":1.5,\"data\":{}}".to_string()),
        Ok(answer("junk")),
    ];
    let mut asked = 0;
    let summary = loop {
        action = match action {
            SyncAction::Convert { .. } => {
                run.step_at(&mut ledger, SyncEvent::Converted(Ok("md".to_string())), "t2")
            }
            SyncAction::Generate(_) => {
                asked += 1;
                run.step_at(&mut ledger, SyncEvent::Generated(answers[asked - 1].clone()), "t3")
            }
            SyncAction::Done(summary) => break summary,
            other => panic!("unexpected action {:?}", other),
        };
    };
    assert_eq!(summary.status, SyncStatus::Completed);
    assert_eq!(summary.processed, 8);
    assert_eq!(summary.imported, 1);
    let kinds: Vec<Option<ErrorKind>> = run
        .outcomes()
        .iter()
        .map(|o| match o {
            ItemOutcome::Imported(_) => None,
            ItemOutcome::Failed(e) => Some(e.kind()),
        })
        .collect();
    assert_eq!(
        kinds,
        vec![
            Some(ErrorKind::Transport),
            Some(ErrorKind::Internal),
            Some(ErrorKind::Extraction),
            Some(ErrorKind::Extraction),
            Some(ErrorKind::Validation),
            Some(ErrorKind::Validation),
            None,
            Some(ErrorKind::Transport),
        ]
    );
    assert_eq!(count_imported(run.outcomes()), 1);
    let reasons: Vec<String> = run
        .outcomes()
        .iter()
        .map(|o| match o {
            ItemOutcome::Imported(_) => String::new(),
            ItemOutcome::Failed(e) => e.message(),
        })
        .collect();
    assert_eq!(reasons[0], "Failed to fetch email: timeout");
    assert!(reasons[1].starts_with("Failed to parse email: "));
    assert_eq!(reasons[2], "connection refused");
    assert_eq!(reasons[3], "No JSON found in Ollama response");
    assert_eq!(reasons[4], "Unknown classification");
    assert_eq!(reasons[5], "The confidence is not between 0 and 1");
    assert_eq!(reasons[7], "Failed to fetch email: gone");
    assert_eq!(ledger.test.receipts().len(), 1);
    assert_eq!(ledger.test.pending_imports().len(), 1);
    assert_eq!(ledger.test.pending_imports()[0].classification, Some(Classification::Junk));
    assert_eq!(ledger.test.sync_log()[0].emails_processed, 8);
    assert_eq!(ledger.test.sync_log()[0].emails_imported, 1);
}

#[test]
fn an_empty_inbox_completes_at_once() {
    let mut ledger = Ledger::new();
    let (mut run, _) = SyncService::run_sync(&mut ledger, &settings(), "pw", false);
    let action = run.step(&mut ledger, SyncEvent::MailFetched(Ok(vec![])));
    assert_eq!(
        action,
        SyncAction::Done(RunSummary {
            skipped: false,
            status: SyncStatus::Completed,
            processed: 0,
            imported: 0,
            error_message: None,
        })
    );
    assert_eq!(ledger.production.sync_log()[0].status, SyncStatus::Completed);
    assert!(ledger.production.sync_log()[0].sync_completed_at.is_some());
}

#[test]
fn an_event_that_was_not_asked_for_is_ignored() {
    let mut ledger = Ledger::new();
    let (mut run, _) = SyncService::run_sync_at(&mut ledger, &settings(), "pw", false, "t0");
    let before = ledger.clone();
    assert_eq!(
        run.step_at(&mut ledger, SyncEvent::Converted(Ok("md".to_string())), "t"),
        SyncAction::Ignored
    );
    assert_eq!(
        run.step_at(&mut ledger, SyncEvent::Generated(Ok(answer("junk"))), "t"),
        SyncAction::Ignored
    );
    assert_eq!(run.phase(), SyncPhase::AwaitingMail);
    assert_eq!(ledger, before);
    let action = run.step_at(&mut ledger, SyncEvent::MailFetched(Ok(vec![Ok(message("a", "x"))])), "t");
    assert!(matches!(action, SyncAction::Convert { .. }));
    assert_eq!(
        run.step_at(&mut ledger, SyncEvent::MailFetched(Ok(vec![])), "t"),
        SyncAction::Ignored
    );
    assert_eq!(
        run.step_at(&mut ledger, SyncEvent::Generated(Ok(answer("junk"))), "t"),
        SyncAction::Ignored
    );
    assert_eq!(run.phase(), SyncPhase::AwaitingConversion);
    assert_eq!(run.outcomes().len(), 0);
}

#[test]
fn a_message_marked_as_test_goes_to_the_test_store() {
    assert_eq!(route(false, "Receipt [TEST] for Netflix"), DatabaseType::Test);
    assert_eq!(route(false, "Receipt for Netflix"), DatabaseType::Production);
    assert_eq!(route(true, "Receipt for Netflix"), DatabaseType::Test);

    let mut ledger = Ledger::new();
    let (mut run, _) = SyncService::run_sync_at(&mut ledger, &settings(), "pw", false, "t0");
    let fetched = vec![Ok(message("fwd: [Test] invoice", "x")), Ok(message("invoice", "y"))];
    let mut action = run.step_at(&mut ledger, SyncEvent::MailFetched(Ok(fetched)), "t1");
    loop {
        action = match action {
            SyncAction::Convert { .. } => {
                run.step_at(&mut ledger, SyncEvent::Converted(Ok("md".to_string())), "t2")
            }
            SyncAction::Generate(_) => {
                run.step_at(&mut ledger, SyncEvent::Generated(Ok(answer("domain"))), "t3")
            }
            SyncAction::Done(_) => break,
            other => panic!("unexpected action {:?}", other),
        };
    }
    assert_eq!(ledger.test.pending_imports().len(), 1);
    assert_eq!(
        ledger.test.pending_imports()[0].email_subject,
        Some("fwd: [Test] invoice".to_string())
    );
    assert_eq!(ledger.production.pending_imports().len(), 1);
    assert_eq!(ledger.production.pending_imports()[0].email_subject, Some("invoice".to_string()));
    assert_eq!(ledger.production.sync_log().len(), 1);
    assert_eq!(ledger.test.sync_log().len(), 0);
}

#[test]
fn the_chosen_attachment_is_kept_with_the_receipt_in_base64() {
    let mut ledger = Ledger::new();
    let email = EmailContent {
        subject: "Invoice".to_string(),
        from: "shop@example.com".to_string(),
        date: "2024-01-01".to_string(),
        body: "see attachment".to_string(),
        attachments: vec![
            Attachment {
                filename: "logo.png".to_string(),
                content_type: "image/png".to_string(),
                data: vec![1, 2, 3],
            },
            Attachment {
                filename: "invoice.pdf".to_string(),
                content_type: "application/pdf".to_string(),
                data: b"hello world~".to_vec(),
            },
        ],
    };
    let extraction = LlmExtractionResult {
        classification: "domain".to_string(),
        confidence: 0.5f64.to_bits(),
        data: "{\"domainName\":\"a.io\"}".to_string(),
    };
    let id = SyncService::process_email(&mut ledger, &email, extraction.clone(), false, "now").unwrap();
    assert_eq!(id, 1);
    let receipt = &ledger.production.receipts()[0];
    assert_eq!(receipt.file_type, Some("application/pdf".to_string()));
    assert_eq!(receipt.file_data, Some("aGVsbG8gd29ybGR+".to_string()));
    assert_eq!(receipt.raw_email_body, Some("see attachment".to_string()));
    let item = &ledger.production.pending_imports()[0];
    assert_eq!(item.receipt_id, receipt.id);
    assert_eq!(item.extracted_data, "{\"domainName\":\"a.io\"}");
    assert_eq!(item.email_from, "shop@example.com");
    assert_eq!(item.email_date, Some("2024-01-01".to_string()));

    let mut bad = extraction.clone();
    bad.confidence = 2.0f64.to_bits();
    let before = ledger.clone();
    assert_eq!(
        SyncService::process_email(&mut ledger, &email, bad, false, "now").unwrap_err().kind(),
        ErrorKind::Validation
    );
    assert_eq!(ledger, before);
}

#[test]
fn approval_links_the_receipt_of_a_synced_message() {
    let mut ledger = Ledger::new();
    let email = EmailContent {
        subject: "Renewal".to_string(),
        from: "r@example.com".to_string(),
        date: "d".to_string(),
        body: "b".to_string(),
        attachments: vec![],
    };
    let domain = LlmExtractionResult {
        classification: "domain".to_string(),
        confidence: 0.5f64.to_bits(),
        data: "{\"domainName\":\"a.io\",\"expiryDate\":\"2030-01-01\"}".to_string(),
    };
    let subscription = LlmExtractionResult {
        classification: "subscription".to_string(),
        confidence: 0.5f64.to_bits(),
        data: "{\"name\":\"N\",\"cost\":1,\"currency\":\"USD\",\"billingCycle\":\"monthly\"}".to_string(),
    };
    let first = SyncService::process_email(&mut ledger, &email, domain, true, "t").unwrap();
    let second = SyncService::process_email(&mut ledger, &email, subscription, true, "t").unwrap();
    subscript::pending_imports::batch_approve_pending_imports_at(
        &mut ledger,
        vec![first, second],
        true,
        "t2",
    )
    .unwrap();
    let receipts = ledger.test.receipts();
    assert_eq!(receipts[0].domain_id, Some(1));
    assert_eq!(receipts[0].subscription_id, None);
    assert_eq!(receipts[1].subscription_id, Some(1));
    assert_eq!(receipts[1].domain_id, None);
}
