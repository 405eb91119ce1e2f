use graphon::entities::LabelInfo;
use graphon::error::GraphonError;
use graphon::label_organizer::{
    analyze_labels, category_index, cleanup_empty_labels, consolidate_labels, delete_label_by_name,
    is_graphon_label, is_nested_label, is_star_label, match_promo_keywords, LabelSweep,
};

fn label(id: &str, name: &str, total: Option<i64>) -> LabelInfo {
    LabelInfo {
        id: id.to_string(),
        name: name.to_string(),
        label_type: "user".to_string(),
        messages_total: total,
        messages_unread: None,
        threads_total: None,
    }
}

#[test]
fn graphon_labels_match_any_ascii_case() {
    assert!(is_graphon_label("PROMO"));
    assert!(is_graphon_label("urgent"));
    assert!(is_graphon_label("Normal"));
    assert!(!is_graphon_label("PROMOS"));
}

#[test]
fn star_labels_match_any_ascii_case() {
    assert!(is_star_label("red_star"));
    assert!(is_star_label("GREEN_CIRCLE"));
    assert!(!is_star_label("STAR"));
}

#[test]
fn nested_labels_hold_a_slash_or_backslash() {
    assert!(is_nested_label("Work/Projects"));
    assert!(is_nested_label("Work\\Projects"));
    assert!(!is_nested_label("Work"));
}

#[test]
fn promo_keywords_are_found_after_lower_casing() {
    assert!(match_promo_keywords("My NEWSLETTERS"));
    assert!(match_promo_keywords("Shopping"));
    assert!(match_promo_keywords("Best Deals"));
    assert!(!match_promo_keywords("Family"));
}

#[test]
fn system_labels_are_matched_exactly() {
    assert!(label("1", "INBOX", None).is_system());
    assert!(label("2", "CATEGORY_FORUMS", None).is_system());
    assert!(!label("3", "inbox", None).is_system());
}

#[test]
fn unknown_count_is_empty() {
    assert!(label("1", "x", None).is_empty());
    assert!(label("1", "x", Some(0)).is_empty());
    assert!(!label("1", "x", Some(3)).is_empty());
}

#[test]
fn categories_follow_the_first_matching_rule() {
    assert_eq!(category_index(&label("1", "INBOX", Some(0))), 0);
    assert_eq!(category_index(&label("2", "urgent", Some(50))), 1);
    assert_eq!(category_index(&label("3", "RED_STAR", Some(0))), 2);
    assert_eq!(category_index(&label("4", "a/b", Some(0))), 3);
    assert_eq!(category_index(&label("5", "Old", Some(0))), 4);
    assert_eq!(category_index(&label("6", "Newsletter", Some(2))), 5);
    assert_eq!(category_index(&label("7", "Friends", Some(4))), 6);
    assert_eq!(category_index(&label("8", "Work", Some(5))), 7);
    assert_eq!(category_index(&label("9", "Odd", Some(-1))), 6);
}

#[test]
fn analysis_partitions_the_labels() {
    let labels = vec![
        label("1", "INBOX", Some(10)),
        label("2", "Work", Some(12)),
        label("3", "Old", None),
        label("4", "SPAM", Some(3)),
        label("5", "Shop", Some(9)),
        label("6", "Projects/2024", Some(0)),
        label("7", "Family", Some(2)),
    ];
    let cats = analyze_labels(&labels);
    let names: Vec<String> = cats.iter().map(|c| c.name.clone()).collect();
    assert_eq!(names, vec!["system", "nested", "empty_unused", "promotional", "low_usage", "active"]);
    let total: usize = cats.iter().map(|c| c.labels.len()).sum();
    assert_eq!(total, labels.len());
    assert_eq!(cats[0].labels.iter().map(|l| l.id.clone()).collect::<Vec<_>>(), vec!["1", "4"]);
    assert_eq!(cats[0].action, "keep");
    assert_eq!(cats[2].action, "delete");
    assert_eq!(cats[2].description, "Étiquettes plates sans messages (nettoyable)");
    assert_eq!(cats[3].action, "consolidate");
    assert_eq!(cats[4].action, "review");
    assert_eq!(cats[5].labels[0].name, "Work");
}

#[test]
fn analysis_of_nothing_is_empty() {
    assert!(analyze_labels(&Vec::new()).is_empty());
}

#[test]
fn cleanup_deletes_empty_plain_labels_and_counts_successes() {
    let labels = vec![
        label("1", "INBOX", Some(0)),
        label("2", "PROMO", Some(0)),
        label("3", "Old", Some(0)),
        label("4", "a/b", None),
        label("5", "Stale", None),
        label("6", "Busy", Some(8)),
        label("7", "RED_STAR", Some(0)),
    ];
    let mut sweep: LabelSweep = cleanup_empty_labels(&labels);
    let ids: Vec<String> = sweep.targets().iter().map(|l| l.id.clone()).collect();
    assert_eq!(ids, vec!["3", "5", "7"]);
    let first = sweep.next_label().unwrap();
    assert_eq!(first.id, "3");
    sweep.record(true);
    assert_eq!(sweep.next_label().unwrap().id, "5");
    sweep.record(false);
    sweep.record(true);
    assert!(sweep.next_label().is_none());
    sweep.record(true);
    assert_eq!(sweep.deleted(), 2);
}

#[test]
fn consolidation_matches_lowercased_prefix_but_spares_target_and_graphon_labels() {
    let labels = vec![
        label("1", "Promo-A", Some(1)),
        label("2", "promo-b", Some(1)),
        label("3", "Promo", Some(1)),
        label("4", "Other", Some(1)),
        label("5", "CATEGORY_PROMOTIONS", Some(1)),
        label("6", "PROMO", Some(1)),
        label("7", "promo", Some(1)),
    ];
    let sweep = consolidate_labels(&labels, "PROMO", "Promo");
    let ids: Vec<String> = sweep.targets().iter().map(|l| l.id.clone()).collect();
    assert_eq!(ids, vec!["1", "2"]);
    assert_eq!(sweep.deleted(), 0);
}

#[test]
fn delete_by_name_finds_first_ascii_case_match() {
    let labels = vec![label("1", "Work", Some(1)), label("2", "WORK", Some(2))];
    let found = delete_label_by_name(&labels, "work").ok().unwrap();
    assert_eq!(found.id, "1");
}

#[test]
fn delete_by_name_reports_missing_label() {
    let labels = vec![label("1", "Work", Some(1))];
    match delete_label_by_name(&labels, "Home") {
        Err(GraphonError::NotFound(m)) => assert_eq!(m, "Label 'Home' not found"),
        _ => panic!("expected NotFound"),
    }
}
