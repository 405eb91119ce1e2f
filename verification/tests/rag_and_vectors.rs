use graphon::entities::{Email, RagChunk};
use graphon::error::GraphonError;
use graphon::qdrant::{
    check_embedding_count, chunk_from_payload, decimal_text, embedding_endpoint, embedding_http_error,
    chunk_points, collection_step, first_embedding, CollectionStep, fnv1a_64, in_index_order, point_id, EmbeddingEndpoint, QdrantConfig,
};
use graphon::rag_indexer::{chunk_email, in_utc_range_check, index_email_for_rag, reindex_all, search, total_chunks};

fn email(body: &str) -> Email {
    Email {
        id: "e1".to_string(),
        thread_id: "t1".to_string(),
        from: "a@b.c".to_string(),
        to: vec![],
        subject: "Sub".to_string(),
        body: body.to_string(),
        date: 0,
        date_nanos: 0,
        labels: vec![],
        attachments: vec![],
    }
}

fn first_chunk_at(date: i64) -> String {
    first_chunk_at_nanos(date, 0)
}

fn first_chunk_at_nanos(date: i64, nanos: u32) -> String {
    let mut e = email("x");
    e.date = date;
    e.date_nanos = nanos;
    chunk_email(&e).remove(0).content
}

#[test]
fn dates_display_as_chrono_does() {
    assert_eq!(first_chunk_at(0), "From: a@b.c\nSubject: Sub\nDate: 1970-01-01 00:00:00 UTC\n\nx");
    assert_eq!(first_chunk_at(1057049557), "From: a@b.c\nSubject: Sub\nDate: 2003-07-01 08:52:37 UTC\n\nx");
    assert_eq!(
        first_chunk_at(8210266876799),
        "From: a@b.c\nSubject: Sub\nDate: +262142-12-31 23:59:59 UTC\n\nx"
    );
    assert!(first_chunk_at(-8334601228800).ends_with(" UTC\n\nx"));
    let leap = chrono::DateTime::from_timestamp(1057049579, 1_250_000_000).unwrap().to_string();
    assert_eq!(first_chunk_at_nanos(1057049579, 1_250_000_000), format!("From: a@b.c\nSubject: Sub\nDate: {}\n\nx", leap));
    assert_eq!(
        first_chunk_at_nanos(1057049557, 250_000_000),
        "From: a@b.c\nSubject: Sub\nDate: 2003-07-01 08:52:37.250 UTC\n\nx"
    );
}

#[test]
fn short_email_is_one_chunk() {
    let chunks = chunk_email(&email("Hello"));
    assert_eq!(chunks.len(), 1);
    assert_eq!(chunks[0].content, "From: a@b.c\nSubject: Sub\nDate: 1970-01-01 00:00:00 UTC\n\nHello");
    assert_eq!(chunks[0].email_id, "e1");
    assert_eq!(chunks[0].sender, "a@b.c");
    assert_eq!(chunks[0].subject, "Sub");
    assert_eq!(chunks[0].chunk_index, 0);
}

#[test]
fn long_email_chunks_overlap_by_200_and_cover_the_text() {
    let body: String = (0..2500).map(|i| char::from(b'a' + (i % 26) as u8)).collect();
    let e = email(&body);
    let text = format!("From: a@b.c\nSubject: Sub\nDate: 1970-01-01 00:00:00 UTC\n\n{}", body);
    let n = text.chars().count();
    let chunks = chunk_email(&e);
    // 2556 characters: chunks start at 0, 800 and 1600; the last one reaches the end.
    assert_eq!(n, 2556);
    assert_eq!(chunks.len(), 3);
    for (i, c) in chunks.iter().enumerate() {
        assert_eq!(c.chunk_index, i);
        let start = 800 * i;
        let end = std::cmp::min(start + 1000, n);
        let expected: String = text.chars().skip(start).take(end - start).collect();
        assert_eq!(c.content, expected);
    }
    let mut glued = chunks[0].content.clone();
    for c in &chunks[1..] {
        glued.extend(c.content.chars().skip(200));
    }
    assert_eq!(glued, text);
}

#[test]
fn missing_email_is_not_found() {
    match index_email_for_rag("nope", None) {
        Err(GraphonError::NotFound(m)) => assert_eq!(m, "Email with ID nope"),
        _ => panic!("expected NotFound"),
    }
    let ok = index_email_for_rag("e1", Some(email("x"))).ok().unwrap();
    assert_eq!(ok.len(), 1);
}

#[test]
fn reindexing_chunks_every_email() {
    let batches = reindex_all(&vec![email("x"), email("y")]);
    assert_eq!(batches.len(), 2);
    assert_eq!(total_chunks(&batches), 2);
    let q = search("invoices", 5);
    assert_eq!(q.query_text, "invoices");
    assert_eq!(q.limit, 5);
}

#[test]
fn fnv1a_known_values() {
    assert_eq!(fnv1a_64(""), 0xcbf29ce484222325);
    assert_eq!(fnv1a_64("a"), 0xaf63dc4c8601ec8c);
    assert_eq!(fnv1a_64("msg1-0"), 0x8b8f9dc39de67834);
}

#[test]
fn point_ids_hash_email_and_index() {
    let c = RagChunk {
        email_id: "msg1".to_string(),
        subject: String::new(),
        sender: String::new(),
        chunk_index: 0,
        content: String::new(),
    };
    assert_eq!(point_id(&c), 0x8b8f9dc39de67834);
    assert_eq!(decimal_text(0), "0");
    assert_eq!(decimal_text(1234567890), "1234567890");
}

#[test]
fn payload_defaults() {
    let c = chunk_from_payload(Some("e".to_string()), None, Some("s".to_string()), None, Some("body".to_string()));
    assert_eq!(c.email_id, "e");
    assert_eq!(c.subject, "");
    assert_eq!(c.sender, "s");
    assert_eq!(c.chunk_index, 0);
    assert_eq!(c.content, "body");
    assert_eq!(chunk_from_payload(None, None, None, Some(3), None).chunk_index, 3);
}

#[test]
fn collection_defaults() {
    let c = QdrantConfig::new(None, None, None);
    assert_eq!(c.qdrant_url, "http://qdrant.qdrant.svc.cluster.local:6333");
    assert_eq!(c.collection_name(), "emails");
    assert_eq!(c.vector_size, 768);
    let d = QdrantConfig::new(Some("http://q:6333".to_string()), Some("mails".to_string()), Some(3));
    assert_eq!(d.collection_name(), "mails");
    assert_eq!(d.vector_size, 3);
}

#[test]
fn embedding_endpoints() {
    match embedding_endpoint(&Some("m".to_string()), &Some("http://p/".to_string()), &Some("k".to_string()), &None, true) {
        Ok(EmbeddingEndpoint::Pylos { url, model, authorization }) => {
            assert_eq!(url, "http://p/v1/embeddings");
            assert_eq!(model, "m");
            assert_eq!(authorization, Some("Bearer k".to_string()));
        }
        _ => panic!("expected Pylos"),
    }
    match embedding_endpoint(&Some("m".to_string()), &None, &None, &None, false) {
        Ok(EmbeddingEndpoint::Pylos { url, authorization, .. }) => {
            assert_eq!(url, "http://localhost:3000/v1/embeddings");
            assert!(authorization.is_none());
        }
        _ => panic!("expected Pylos"),
    }
    match embedding_endpoint(&None, &None, &None, &Some("K".to_string()), false) {
        Ok(EmbeddingEndpoint::Gemini { url }) => assert_eq!(
            url,
            "https://generativelanguage.googleapis.com/v1beta/models/text-embedding-004:embedContent?key=K"
        ),
        _ => panic!("expected Gemini"),
    }
    match embedding_endpoint(&None, &None, &None, &None, true) {
        Err(GraphonError::Classifier(m)) => {
            assert_eq!(m, "LLM_API_KEY/PYLOS_EMBEDDING_MODEL not configured. Cannot generate embeddings.")
        }
        _ => panic!("expected a Classifier error"),
    }
    match embedding_http_error(false, "quota") {
        GraphonError::Classifier(m) => assert_eq!(m, "Gemini Embedding API error: quota"),
        _ => panic!("expected a Classifier error"),
    }
}

#[test]
fn embedding_count_mismatch() {
    assert!(check_embedding_count(2, 2).is_ok());
    match check_embedding_count(3, 1) {
        Err(GraphonError::Classifier(m)) => assert_eq!(m, "Mismatch: expected 3 embeddings, received 1"),
        _ => panic!("expected a mismatch"),
    }
}

#[test]
fn embeddings_are_put_back_in_input_order() {
    let returned = vec![(2, "c"), (0, "a"), (1, "b1"), (1, "b2")];
    assert_eq!(in_index_order(returned), vec!["a", "b1", "b2", "c"]);
    assert_eq!(in_index_order(Vec::<(usize, f32)>::new()), Vec::<f32>::new());
    assert_eq!(in_index_order(vec![(0, vec![0.5f32, 1.0])]), vec![vec![0.5f32, 1.0]]);
}

#[test]
fn first_embedding_or_empty_error() {
    assert_eq!(first_embedding(vec![vec![1.0f32], vec![2.0f32]]).ok(), Some(vec![1.0f32]));
    match first_embedding(Vec::<Vec<f32>>::new()) {
        Err(GraphonError::Classifier(m)) => assert_eq!(m, "Pylos embedding returned empty results"),
        _ => panic!("expected the empty-results error"),
    }
}

#[test]
fn indexing_writes_each_chunk_under_its_point_id() {
    let chunks = chunk_email(&email(&"z".repeat(1500)));
    let points = chunk_points(&chunks);
    assert_eq!(points.len(), 2);
    assert_eq!(points[0].0, fnv1a_64("e1-0"));
    assert_eq!(points[1].0, fnv1a_64("e1-1"));
    assert_eq!(points[1].1.content, chunks[1].content);
    let again = chunk_points(&chunk_email(&email(&"z".repeat(1500))));
    assert_eq!(again.iter().map(|p| p.0).collect::<Vec<_>>(), points.iter().map(|p| p.0).collect::<Vec<_>>());
}

#[test]
fn representable_dates() {
    assert!(in_utc_range_check(0, 999_999_999));
    assert!(!in_utc_range_check(0, 1_000_000_000));
    assert!(in_utc_range_check(59, 1_999_999_999));
    assert!(in_utc_range_check(-1, 1_500_000_000));
    assert!(!in_utc_range_check(-2, 1_500_000_000));
    assert!(!in_utc_range_check(59, 2_000_000_000));
    assert!(in_utc_range_check(8210266876799, 1_000_000_000));
    assert!(!in_utc_range_check(8210266876800, 0));
    assert!(in_utc_range_check(-8334601228800, 0));
    assert!(!in_utc_range_check(-8334601228801, 0));
}

#[test]
fn collections_are_created_or_deleted_only_when_needed() {
    assert!(collection_step(true, false) == CollectionStep::Create);
    assert!(collection_step(true, true) == CollectionStep::Nothing);
    assert!(collection_step(false, true) == CollectionStep::Delete);
    assert!(collection_step(false, false) == CollectionStep::Nothing);
}
