use graphon::entities::Attachment;
use graphon::error::GraphonError;
use graphon::gmail_client::{
    decode_base64url, email_from_detail, encode_query, extract_headers, find_label, gmail_call_error,
    is_system_label, keep_fetched, label_id_or_name, message_list_url, mock_query_emails,
    mock_unread_emails, parse_part_recursive, require_token, parse_parts, BodyData, GmailCall, GmailLabel,
    LabelIdAction, LabelIdEvent, LabelIdResolution, MessageDetail, MessageHeader, MessagePart,
    MessagePayload,
};

fn data(text: &str) -> Option<BodyData> {
    Some(BodyData { data: Some(text.to_string()), attachment_id: None, size: None })
}

#[test]
fn query_encoding_keeps_unreserved_characters() {
    assert_eq!(encode_query("is:unread"), "is%3Aunread");
    assert_eq!(encode_query("from:a b"), "from%3Aa%20b");
    assert_eq!(encode_query("A-z_0.9~"), "A-z_0.9~");
    assert_eq!(encode_query("\n"), "%0A");
    assert_eq!(encode_query("é"), "%E9");
    assert_eq!(encode_query("中"), "%4E2D");
}

#[test]
fn base64url_decodes_with_or_without_padding() {
    assert_eq!(decode_base64url("SGVsbG8sIHfDtnJsZCE"), Some("Hello, wörld!".as_bytes().to_vec()));
    assert_eq!(decode_base64url("SGVsbG8sIHfDtnJsZCE="), Some("Hello, wörld!".as_bytes().to_vec()));
    assert_eq!(decode_base64url("-_8"), Some(vec![0xfb, 0xff]));
    assert_eq!(decode_base64url(""), Some(vec![]));
    assert_eq!(decode_base64url("QQ"), Some(vec![b'A']));
    assert_eq!(decode_base64url("+/8="), Some(vec![0xfb, 0xff]));
    assert_eq!(decode_base64url("QUJD"), Some(b"ABC".to_vec()));
    assert_eq!(decode_base64url("QUI="), Some(b"AB".to_vec()));
}

#[test]
fn parts_give_body_text_and_attachments_in_order() {
    let attachment_part = MessagePart {
        filename: Some("report.pdf".to_string()),
        mime_type: None,
        body: Some(BodyData { data: Some("SWdub3JlZA".to_string()), attachment_id: Some("att9".to_string()), size: Some(42) }),
        parts: None,
    };
    let nested = MessagePart {
        filename: Some(String::new()),
        mime_type: Some("multipart/alternative".to_string()),
        body: data("IHdvcmxk"),
        parts: Some(vec![attachment_part]),
    };
    let payload = MessagePayload { headers: None, body: data("SGVsbG8"), parts: Some(vec![nested]) };
    let mut body = String::new();
    let mut attachments: Vec<Attachment> = Vec::new();
    parse_parts(&payload, &mut body, &mut attachments);
    assert_eq!(body, "Hello world");
    assert_eq!(attachments.len(), 1);
    assert_eq!(attachments[0].id, "att9");
    assert_eq!(attachments[0].filename, "report.pdf");
    assert_eq!(attachments[0].mime_type, "application/octet-stream");
    assert_eq!(attachments[0].size, 42);
    assert!(attachments[0].data.is_none());
}

#[test]
fn invalid_utf8_body_is_skipped() {
    let part = MessagePart { filename: None, mime_type: None, body: data("_w"), parts: None };
    let mut body = String::new();
    let mut attachments: Vec<Attachment> = Vec::new();
    parse_part_recursive(&part, &mut body, &mut attachments);
    assert_eq!(body, "");
}

#[test]
fn headers_are_read_case_insensitively() {
    let headers = Some(vec![
        MessageHeader { name: "FROM".to_string(), value: "Ann <ann@x.com>".to_string() },
        MessageHeader { name: "To".to_string(), value: "b@y.com, c@z.com".to_string() },
        MessageHeader { name: "subject".to_string(), value: "Hi".to_string() },
        MessageHeader { name: "Date".to_string(), value: "Tue, 1 Jul 2003 10:52:37 +0200".to_string() },
        MessageHeader { name: "X-Other".to_string(), value: "ignored".to_string() },
    ]);
    let f = extract_headers(&headers, 7, 3);
    assert_eq!(f.from, "Ann <ann@x.com>");
    assert_eq!(f.to, vec!["b@y.com", "c@z.com"]);
    assert_eq!(f.subject, "Hi");
    assert_eq!(f.date, 1057049557);
    assert_eq!(f.date_nanos, 0);
}

#[test]
fn unparsable_date_keeps_now() {
    let headers = Some(vec![MessageHeader { name: "Date".to_string(), value: "yesterday".to_string() }]);
    let f = extract_headers(&headers, 99, 5);
    assert_eq!((f.date, f.date_nanos), (99, 5));
}

#[test]
fn message_detail_becomes_an_email() {
    let detail = MessageDetail {
        id: "m1".to_string(),
        thread_id: "t1".to_string(),
        label_ids: None,
        payload: Some(MessagePayload {
            headers: Some(vec![MessageHeader { name: "Subject".to_string(), value: "S".to_string() }]),
            body: data("SGk"),
            parts: None,
        }),
    };
    let e = email_from_detail(detail, 5, 6);
    assert_eq!(e.id, "m1");
    assert_eq!(e.thread_id, "t1");
    assert_eq!(e.subject, "S");
    assert_eq!(e.body, "Hi");
    assert_eq!((e.date, e.date_nanos), (5, 6));
    assert!(e.labels.is_empty());
    assert!(e.to.is_empty());
}

#[test]
fn stand_in_messages_without_token() {
    let unread = mock_unread_emails(1000, 7);
    assert_eq!(unread.len(), 2);
    assert_eq!(unread[0].id, "msg123");
    assert_eq!(unread[1].attachments[0].filename, "quarterly_report.pdf");
    let old = mock_query_emails(2_000_000, 7);
    assert_eq!(old[0].id, "msg789");
    assert_eq!((old[0].date, old[0].date_nanos), (2_000_000 - 15 * 86400, 7));
    assert_eq!((unread[0].date, unread[0].date_nanos), (1000, 7));
}

#[test]
fn urls_and_errors() {
    assert_eq!(
        message_list_url("https://gmail.googleapis.com/gmail/v1", "is:unread"),
        "https://gmail.googleapis.com/gmail/v1/users/me/messages?q=is%3Aunread"
    );
    match gmail_call_error(GmailCall::GetMessage("m7".to_string()), "boom") {
        GraphonError::Gmail(m) => assert_eq!(m, "Failed to get message m7: boom"),
        _ => panic!("expected a Gmail error"),
    }
    assert!(is_system_label("UNREAD"));
    assert!(!is_system_label("PROMO"));
}

fn gl(id: &str, name: &str) -> GmailLabel {
    GmailLabel { id: id.to_string(), name: name.to_string() }
}

#[test]
fn labels_are_found_by_name_or_id() {
    let ls = vec![gl("Label_1", "Work"), gl("Label_2", "promo")];
    assert_eq!(find_label(&ls, "PROMO", true), Some(1));
    assert_eq!(find_label(&ls, "label_1", true), Some(0));
    assert_eq!(find_label(&ls, "label_1", false), None);
}

#[test]
fn existing_label_resolves_without_creating() {
    let r = LabelIdResolution::new("promo");
    let (r, a) = r.step(LabelIdEvent::Begin);
    assert!(matches!(a, LabelIdAction::ListLabels));
    let (_, a) = r.step(LabelIdEvent::Listed(Ok(Some(vec![gl("Label_7", "PROMO")]))));
    match a {
        LabelIdAction::Finish(Ok(id)) => assert_eq!(id, "Label_7"),
        _ => panic!("expected the existing id"),
    }
}

#[test]
fn system_label_is_its_own_id() {
    let (r, _) = LabelIdResolution::new("UNREAD").step(LabelIdEvent::Begin);
    let (_, a) = r.step(LabelIdEvent::Listed(Ok(None)));
    match a {
        LabelIdAction::Finish(Ok(id)) => assert_eq!(id, "UNREAD"),
        _ => panic!("expected the system label's name"),
    }
}

#[test]
fn refused_creation_relists_then_fails() {
    let (r, _) = LabelIdResolution::new("URGENT").step(LabelIdEvent::Begin);
    let (r, a) = r.step(LabelIdEvent::Listed(Ok(Some(vec![]))));
    assert!(matches!(a, LabelIdAction::CreateLabel));
    let (r, a) = r.step(LabelIdEvent::Created(Ok(Err("Label name exists or conflicts".to_string()))));
    assert!(matches!(a, LabelIdAction::ListLabels));
    let (_, a) = r.step(LabelIdEvent::Relisted(Ok(Some(vec![gl("Label_3", "other")]))));
    match a {
        LabelIdAction::Finish(Err(GraphonError::Gmail(m))) => {
            assert_eq!(m, "Failed to create or retrieve label ID for 'URGENT': Label name exists or conflicts")
        }
        _ => panic!("expected a Gmail error"),
    }
}

#[test]
fn created_label_gives_new_id_and_out_of_order_events_are_rejected() {
    let r = LabelIdResolution::new("NORMAL");
    let (r, a) = r.step(LabelIdEvent::Listed(Ok(None)));
    assert!(matches!(a, LabelIdAction::Rejected));
    let (r, _) = r.step(LabelIdEvent::Begin);
    let (r, _) = r.step(LabelIdEvent::Listed(Ok(None)));
    let (_, a) = r.step(LabelIdEvent::Created(Ok(Ok(gl("Label_9", "NORMAL")))));
    match a {
        LabelIdAction::Finish(Ok(id)) => assert_eq!(id, "Label_9"),
        _ => panic!("expected the new id"),
    }
    assert_eq!(label_id_or_name(Err(GraphonError::Gmail("x".to_string())), "NORMAL"), "NORMAL");
}

#[test]
fn failed_fetches_are_passed_over() {
    let mut emails = mock_unread_emails(0, 0);
    let second = emails.pop().unwrap();
    let first = emails.pop().unwrap();
    let kept = keep_fetched(&vec![Ok(first), Err(GraphonError::Network("down".to_string())), Ok(second)]);
    assert_eq!(kept.iter().map(|e| e.id.clone()).collect::<Vec<_>>(), vec!["msg123", "msg456"]);
}

#[test]
fn requests_need_a_token() {
    assert_eq!(require_token(&Some("t".to_string()), true).ok(), Some("t".to_string()));
    match require_token(&None, true) {
        Err(GraphonError::Gmail(m)) => assert_eq!(m, "No OAuth token provided"),
        _ => panic!("expected a Gmail error"),
    }
    match require_token(&None, false) {
        Err(GraphonError::Gmail(m)) => assert_eq!(m, "No OAuth token available"),
        _ => panic!("expected a Gmail error"),
    }
}
