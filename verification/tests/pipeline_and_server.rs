use graphon::entities::{Email, RetentionRule};
use graphon::error::GraphonError;
use graphon::server::{
    cli_mode, dashboard_reply, debug_enabled, exchange_refused, exchange_outcome, listen_address, rag_index_failure_reply,
    render_metrics, sync_reply, token_exchange, CliMode, Reply, ServerMetrics,
};
use graphon::sort_pipeline::{
    email_age_days, should_trash, unread_label, SortAction, SortEvent, SortPhase, SortRun,
};

fn email(id: &str, date: i64) -> Email {
    Email {
        id: id.to_string(),
        thread_id: "t".to_string(),
        from: "f@x".to_string(),
        to: vec![],
        subject: "s".to_string(),
        body: "b".to_string(),
        date,
        date_nanos: 0,
        labels: vec![],
        attachments: vec![],
    }
}

const DAY: i64 = 86400;

#[test]
fn ages_round_toward_zero() {
    assert_eq!(email_age_days(10 * DAY, 0, 3 * DAY, 0), 7);
    assert_eq!(email_age_days(10 * DAY - 1, 0, 3 * DAY, 0), 6);
    assert_eq!(email_age_days(10 * DAY, 0, 3 * DAY, 1), 6);
    assert_eq!(email_age_days(10 * DAY - 1, 999_999_999, 3 * DAY, 0), 6);
    assert_eq!(email_age_days(0, 0, DAY + 1, 0), -1);
    assert_eq!(email_age_days(0, 0, DAY, 1), -1);
    assert_eq!(email_age_days(0, 0, DAY - 1, 999_999_999), 0);
    assert!(should_trash(15 * DAY, 0, 0, 0, 7));
    assert!(should_trash(7 * DAY, 5, 0, 5, 7));
    assert!(!should_trash(7 * DAY, 4, 0, 5, 7));
    assert!(!should_trash(7 * DAY - 1, 0, 0, 0, 7));
    assert_eq!(unread_label(), "UNREAD");
}

#[test]
fn a_whole_run() {
    let run = SortRun::new();
    let (run, a) = run.step(SortEvent::Begin);
    assert!(matches!(a, SortAction::FetchUnread));
    let (run, a) = run.step(SortEvent::Unread(Ok(vec![email("promo", 0), email("work", 0)])));
    assert!(matches!(a, SortAction::CheckSpam { email: 0 }));
    // the first e-mail is a promotion
    let (run, a) = run.step(SortEvent::SpamVerdict(Ok(true)));
    match &a {
        SortAction::ApplyLabel { email: 0, label } => assert_eq!(label.text(), "PROMO"),
        _ => panic!("expected PROMO"),
    }
    let (run, a) = run.step(SortEvent::Done(Ok(())));
    assert!(matches!(a, SortAction::RemoveUnread { email: 0 }));
    let (run, a) = run.step(SortEvent::Done(Ok(())));
    assert!(matches!(a, SortAction::CheckSpam { email: 1 }));
    // the second is classified, labelled, read and saved
    let (run, a) = run.step(SortEvent::SpamVerdict(Ok(false)));
    assert!(matches!(a, SortAction::ClassifyImportance { email: 1 }));
    let (run, a) = run.step(SortEvent::Importance(Ok("URGENT".to_string())));
    match &a {
        SortAction::ApplyLabel { email: 1, label } => assert_eq!(label.text(), "URGENT"),
        _ => panic!("expected URGENT"),
    }
    let (run, a) = run.step(SortEvent::Done(Ok(())));
    assert!(matches!(a, SortAction::RemoveUnread { email: 1 }));
    let (run, a) = run.step(SortEvent::Done(Ok(())));
    assert!(matches!(a, SortAction::SaveEmail { email: 1 }));
    let (run, a) = run.step(SortEvent::Done(Ok(())));
    assert!(matches!(a, SortAction::FetchRules));
    let rules = vec![
        RetentionRule { id: "r1".to_string(), query: "from:alerts".to_string(), duration_days: 7 },
        RetentionRule { id: "r2".to_string(), query: "label:x".to_string(), duration_days: 1 },
    ];
    let (run, a) = run.step(SortEvent::Rules(Ok(rules)));
    assert!(matches!(a, SortAction::FetchRuleEmails { rule: 0 }));
    let now = 100 * DAY;
    let (run, a) = run.step(SortEvent::RuleEmails(Ok(vec![email("new", now - DAY), email("old", now - 8 * DAY), email("older", 0)]), now, 0));
    assert!(matches!(a, SortAction::Trash { email: 1 }));
    assert_eq!(run.rule_emails[1].id, "old");
    let (run, a) = run.step(SortEvent::Done(Err(GraphonError::Gmail("x".to_string()))));
    assert!(matches!(a, SortAction::Trash { email: 2 }));
    let (run, a) = run.step(SortEvent::Done(Ok(())));
    assert!(matches!(a, SortAction::FetchRuleEmails { rule: 1 }));
    let (run, a) = run.step(SortEvent::RuleEmails(Err(GraphonError::Gmail("q".to_string())), now, 0));
    assert!(matches!(a, SortAction::Finish(Ok(()))));
    assert!(run.phase == SortPhase::Finished);
}

#[test]
fn a_failure_on_an_email_ends_the_run_with_its_error() {
    let (run, _) = SortRun::new().step(SortEvent::Begin);
    let (run, _) = run.step(SortEvent::Unread(Ok(vec![email("a", 0), email("b", 0)])));
    let (run, a) = run.step(SortEvent::SpamVerdict(Err(GraphonError::Classifier("down".to_string()))));
    match a {
        SortAction::Finish(Err(GraphonError::Classifier(m))) => assert_eq!(m, "down"),
        _ => panic!("expected the classifier error"),
    }
    assert!(run.phase == SortPhase::Finished);
    let (run, _) = SortRun::new().step(SortEvent::Begin);
    let (run, _) = run.step(SortEvent::Unread(Ok(vec![email("a", 0)])));
    let (run, _) = run.step(SortEvent::SpamVerdict(Ok(false)));
    let (run, _) = run.step(SortEvent::Importance(Ok("NORMAL".to_string())));
    let (run, _) = run.step(SortEvent::Done(Ok(())));
    let (run, a) = run.step(SortEvent::Done(Ok(())));
    assert!(matches!(a, SortAction::SaveEmail { email: 0 }));
    let (_, a) = run.step(SortEvent::Done(Err(GraphonError::Database("full".to_string()))));
    assert!(matches!(a, SortAction::Finish(Err(GraphonError::Database(_)))));
}

#[test]
fn failed_fetches_end_the_run() {
    let (run, _) = SortRun::new().step(SortEvent::Begin);
    let (_, a) = run.step(SortEvent::Unread(Err(GraphonError::Network("offline".to_string()))));
    match a {
        SortAction::Finish(Err(GraphonError::Network(m))) => assert_eq!(m, "offline"),
        _ => panic!("expected the fetch error"),
    }
    let (run, _) = SortRun::new().step(SortEvent::Begin);
    let (run, a) = run.step(SortEvent::Unread(Ok(vec![])));
    assert!(matches!(a, SortAction::FetchRules));
    let (_, a) = run.step(SortEvent::Rules(Err(GraphonError::Database("db".to_string()))));
    assert!(matches!(a, SortAction::Finish(Err(GraphonError::Database(_)))));
}

#[test]
fn out_of_order_events_are_rejected() {
    let run = SortRun::new();
    let (run, a) = run.step(SortEvent::Done(Ok(())));
    assert!(matches!(a, SortAction::Rejected));
    assert!(run.phase == SortPhase::Start);
    assert!(run.well_formed());
}

#[test]
fn command_line_modes() {
    assert!(cli_mode(true, true, false) == CliMode::SyncOnce);
    assert!(cli_mode(false, false, true) == CliMode::SyncOnce);
    assert!(cli_mode(true, false, false) == CliMode::Serve);
    assert!(cli_mode(false, false, false) == CliMode::Usage);
    assert!(debug_enabled(false, &Some("1".to_string())));
    assert!(!debug_enabled(false, &Some("yes".to_string())));
    assert!(debug_enabled(true, &None));
    assert_eq!(listen_address(&None), "127.0.0.1:8080");
    assert_eq!(listen_address(&Some("0.0.0.0".to_string())), "0.0.0.0:8080");
}

#[test]
fn counters_and_their_text() {
    let mut m = ServerMetrics::new();
    m.record_sync(false);
    m.record_sync(true);
    m.record_rag_index(true);
    assert_eq!((m.sync_requests_total, m.sync_errors_total), (2, 1));
    assert_eq!((m.rag_index_requests_total, m.rag_index_errors_total), (1, 1));
    let t = render_metrics(2, 1, 1, 1);
    assert!(t.starts_with("# HELP graphon_sync_requests_total Total number of mail sync requests\n"));
    assert!(t.contains("\ngraphon_sync_requests_total 2\n"));
    assert!(t.contains("\ngraphon_sync_errors_total 1\n"));
    assert!(t.ends_with("graphon_rag_index_errors_total 1\n"));
    let mut w = ServerMetrics { sync_requests_total: u64::MAX, sync_errors_total: 0, rag_index_requests_total: 0, rag_index_errors_total: 0 };
    w.record_sync(false);
    assert_eq!(w.sync_requests_total, 0);
}

#[test]
fn dashboard_and_sign_in() {
    assert!(matches!(dashboard_reply(&Some("tok".to_string()), &None), Reply::Dashboard));
    match dashboard_reply(&Some("placeholder_gmail_token".to_string()), &Some("cid".to_string())) {
        Reply::Redirect(u) => assert!(u.starts_with("https://accounts.google.com/o/oauth2/auth?client_id=cid&redirect_uri=")),
        _ => panic!("expected a redirect"),
    }
    match dashboard_reply(&None, &None) {
        Reply::Status { code, .. } => assert_eq!(code, 500),
        _ => panic!("expected an error"),
    }
    match token_exchange("c", &Some("id".to_string()), &None) {
        Err(Reply::Status { code, body }) => {
            assert_eq!(code, 500);
            assert_eq!(body, "Missing GOOGLE_CLIENT_SECRET");
        }
        _ => panic!("expected a missing secret"),
    }
    match token_exchange("c", &Some("id".to_string()), &Some("sec".to_string())) {
        Ok(f) => {
            assert_eq!(f.grant_type, "authorization_code");
            assert_eq!(f.redirect_uri, "https://graphon.p.zacharie.org/sso/complete/google-oauth2/");
        }
        Err(_) => panic!("expected a form"),
    }
    match exchange_refused("bad code") {
        Reply::Status { code, body } => {
            assert_eq!(code, 400);
            assert_eq!(body, "Token exchange failed: bad code");
        }
        _ => panic!("expected a refusal"),
    }
}

#[test]
fn sync_and_indexing_replies() {
    let ok = sync_reply(true);
    assert_eq!((ok.code, ok.status.as_str(), ok.message.as_str()), (200, "success", "Mail sync completed."));
    let failed = sync_reply(false);
    assert_eq!(
        (failed.code, failed.status.as_str(), failed.message.as_str()),
        (500, "error", "An internal system error occurred during sync.")
    );
    let r = rag_index_failure_reply();
    assert_eq!((r.code, r.status.as_str(), r.message.as_str()), (500, "error", "Failed to index email for RAG."));
}

#[test]
fn token_exchange_answers() {
    let ok = exchange_outcome(200, "{...}", Ok("tok".to_string()));
    assert_eq!(ok.token, Some("tok".to_string()));
    assert!(matches!(ok.reply, Reply::Redirect(ref u) if u == "/"));
    let refused = exchange_outcome(401, "bad code", Ok("tok".to_string()));
    assert!(refused.token.is_none());
    match refused.reply {
        Reply::Status { code, body } => assert_eq!((code, body.as_str()), (400, "Token exchange failed: bad code")),
        _ => panic!("expected a refusal"),
    }
    let unreadable = exchange_outcome(204, "", Err("EOF".to_string()));
    assert!(unreadable.token.is_none());
    match unreadable.reply {
        Reply::Status { code, body } => assert_eq!((code, body.as_str()), (500, "Failed to parse token response: EOF")),
        _ => panic!("expected a server error"),
    }
}
