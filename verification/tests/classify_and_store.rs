use graphon::classifier::{
    importance_verdict, llm_http_error, llm_request, normalize_reply, promo_keyword_match, spam_prompt,
    spam_verdict, urgent_keyword_match,
};
use graphon::database::MockStorage;
use graphon::entities::{Email, RetentionRule};
use graphon::error::GraphonError;

fn email(id: &str, subject: &str, body: &str) -> Email {
    Email {
        id: id.to_string(),
        thread_id: "t".to_string(),
        from: "f@x".to_string(),
        to: vec!["me@x".to_string()],
        subject: subject.to_string(),
        body: body.to_string(),
        date: 10,
        date_nanos: 0,
        labels: vec![],
        attachments: vec![],
    }
}

#[test]
fn keywords_decide_before_the_model() {
    let sale = email("1", "Big SALE", "today");
    assert!(promo_keyword_match(&sale));
    assert!(spam_verdict(&sale, None));
    assert!(spam_verdict(&sale, Some("ok")));
    let plain = email("2", "Lunch", "see you");
    assert!(!promo_keyword_match(&plain));
    assert!(!spam_verdict(&plain, None));
    assert!(spam_verdict(&plain, Some("promo")));
    assert!(spam_verdict(&plain, Some("this is spam")));
    assert!(!spam_verdict(&plain, Some("ok")));
}

#[test]
fn importance_labels() {
    let meeting = email("1", "Team Meeting", "at 3");
    assert!(urgent_keyword_match(&meeting));
    assert_eq!(importance_verdict(&meeting, None), "URGENT");
    let plain = email("2", "Lunch", "see you");
    assert_eq!(importance_verdict(&plain, None), "NORMAL");
    assert_eq!(importance_verdict(&plain, Some("urgent")), "URGENT");
    assert_eq!(importance_verdict(&plain, Some("normal")), "NORMAL");
}

#[test]
fn replies_are_trimmed_and_lower_cased() {
    assert_eq!(normalize_reply(&vec!["  PROMO \n".to_string(), "x".to_string()]), "promo");
    assert_eq!(normalize_reply(&vec![]), "");
}

#[test]
fn model_requests() {
    let e = email("1", "S", "B");
    match llm_request("http://pylos/", &Some("key".to_string()), "deepseek", spam_prompt(), &e) {
        Ok(q) => {
            assert_eq!(q.url, "http://pylos/v1/chat/completions");
            assert_eq!(q.authorization, "Bearer key");
            assert_eq!(q.model, "deepseek");
            assert_eq!(q.user_text, "Subject: S\nBody:\nB");
            assert!(q.system_prompt.starts_with("You are an email classifier."));
            assert_eq!(q.max_tokens, 64);
        }
        Err(_) => panic!("expected a request"),
    }
    match llm_request("http://pylos", &None, "m", "p", &e) {
        Err(GraphonError::Internal(m)) => assert_eq!(m, "No Pylos API key configured"),
        _ => panic!("expected an Internal error"),
    }
    match llm_http_error("500 Internal Server Error", "oops") {
        GraphonError::Internal(m) => assert_eq!(m, "Pylos returned 500 Internal Server Error: oops"),
        _ => panic!("expected an Internal error"),
    }
}

#[test]
fn storage_reads_back_the_last_save() {
    let mut s = MockStorage::new();
    assert!(s.get_email("1").is_none());
    s.save_email(&email("1", "first", "b"));
    s.save_email(&email("2", "other", "b"));
    s.save_email(&email("1", "second", "b"));
    assert_eq!(s.get_email("1").unwrap().subject, "second");
    assert_eq!(s.get_email("2").unwrap().subject, "other");
    assert!(s.get_email("3").is_none());
}

#[test]
fn storage_keeps_rules_in_order() {
    let mut s = MockStorage::new();
    let rules = s.get_retention_rules();
    assert_eq!(rules.len(), 1);
    assert_eq!(rules[0].id, "rule1");
    assert_eq!(rules[0].query, "from:alerts@system.com");
    assert_eq!(rules[0].duration_days, 7);
    s.save_retention_rule(&RetentionRule { id: "r2".to_string(), query: "label:x".to_string(), duration_days: 30 });
    let rules = s.get_retention_rules();
    assert_eq!(rules.len(), 2);
    assert_eq!(rules[1].id, "r2");
}
