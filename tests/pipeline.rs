use tag_migration::entities::post_tags;
use tag_migration::{
    destination_step, extract, reconcile, resolve_post, Association, Config, DestinationStep,
    HistoryEvent, Outcome, SetupError, SnapshotStore, TagDirectory, TagRow, Timestamp, EDIT_TAGS,
    INITIAL_TAGS, ROLLBACK_TAGS,
};

fn at(secs: i64) -> Option<Timestamp> {
    Some(Timestamp { secs, nanos: 0 })
}

fn event(id: i32, post_id: i32, type_id: i8, time: Option<Timestamp>, text: Option<&str>) -> HistoryEvent {
    HistoryEvent { id, post_id, type_id, creation_date: time, text: text.map(|t| t.to_string()) }
}

fn directory(pairs: &[(&str, i32)]) -> TagDirectory {
    let rows = pairs.iter().map(|(n, id)| TagRow { id: *id, tag_name: Some(n.to_string()) }).collect();
    TagDirectory::load(rows)
}

fn texts(store: &SnapshotStore) -> Vec<(i32, String)> {
    store.entries().iter().map(|s| (s.post_id, s.text.clone())).collect()
}

fn config(allow_drop: bool) -> Config {
    Config {
        database_url: "mysql://localhost/db".to_string(),
        only_these_tags: None,
        destination_table_name: "PostTags".to_string(),
        allow_drop_destination_table: allow_drop,
    }
}

#[test]
fn extract_two_adjacent_tokens() {
    assert_eq!(extract("intro <foo><bar> end"), vec!["foo".to_string(), "bar".to_string()]);
}

#[test]
fn extract_no_tokens() {
    assert!(extract("no tags here").is_empty());
    assert!(extract("").is_empty());
}

#[test]
fn extract_inner_open_bracket_belongs_to_token() {
    assert_eq!(extract("<a<b>c>"), vec!["a<b".to_string()]);
    assert_eq!(extract("<<x>"), vec!["<x".to_string()]);
    assert_eq!(extract("x><y>"), vec!["y".to_string()]);
}

#[test]
fn extract_empty_token_and_stray_close() {
    assert_eq!(extract("<>"), vec!["".to_string()]);
    assert_eq!(extract("<a>b>"), vec!["a".to_string()]);
    assert_eq!(extract("<c++><c#>"), vec!["c++".to_string(), "c#".to_string()]);
    assert_eq!(extract("<unclosed"), Vec::<String>::new());
}

#[test]
fn extract_non_ascii_token() {
    assert_eq!(extract("<café><日本>"), vec!["café".to_string(), "日本".to_string()]);
}

#[test]
fn timestamp_order() {
    let a = Timestamp { secs: 10, nanos: 5 };
    let b = Timestamp { secs: 10, nanos: 6 };
    let c = Timestamp { secs: 11, nanos: 0 };
    assert!(b.is_after(&a));
    assert!(!a.is_after(&b));
    assert!(c.is_after(&b));
    assert!(!a.is_after(&a));
}

#[test]
fn latest_timestamp_wins_regardless_of_arrival() {
    let store = reconcile(vec![
        event(1, 5, EDIT_TAGS, at(30), Some("<c>")),
        event(2, 5, INITIAL_TAGS, at(10), Some("<a>")),
        event(3, 5, ROLLBACK_TAGS, at(20), Some("<b>")),
    ]);
    assert_eq!(texts(&store), vec![(5, "<c>".to_string())]);
    assert_eq!(store.entries()[0].time, Timestamp { secs: 30, nanos: 0 });
}

#[test]
fn equal_timestamps_keep_first_seen() {
    let store = reconcile(vec![
        event(1, 7, INITIAL_TAGS, at(5), Some("<python>")),
        event(2, 7, EDIT_TAGS, at(5), Some("<rust>")),
    ]);
    assert_eq!(texts(&store), vec![(7, "<python>".to_string())]);
}

#[test]
fn incomplete_events_are_skipped() {
    let mut store = SnapshotStore::new();
    assert_eq!(store.apply(event(1, 3, INITIAL_TAGS, None, Some("<x>"))), Outcome::MissingDate);
    assert_eq!(store.apply(event(2, 3, INITIAL_TAGS, at(9), None)), Outcome::MissingText);
    assert!(store.entries().is_empty());
    assert_eq!(store.apply(event(3, 3, INITIAL_TAGS, at(1), Some("<y>"))), Outcome::Recorded { without_initial: false });
    assert_eq!(store.apply(event(4, 3, EDIT_TAGS, None, Some("<z>"))), Outcome::MissingDate);
    assert_eq!(store.apply(event(5, 3, EDIT_TAGS, at(50), None)), Outcome::MissingText);
    assert_eq!(texts(&store), vec![(3, "<y>".to_string())]);
}

#[test]
fn outcomes_report_anomalies() {
    let mut store = SnapshotStore::new();
    assert_eq!(store.apply(event(1, 8, EDIT_TAGS, at(4), Some("<a>"))), Outcome::Recorded { without_initial: true });
    assert_eq!(store.apply(event(2, 8, INITIAL_TAGS, at(6), Some("<b>"))), Outcome::Replaced { repeated_initial: true });
    assert_eq!(store.apply(event(3, 8, EDIT_TAGS, at(9), Some("<c>"))), Outcome::Replaced { repeated_initial: false });
    assert_eq!(store.apply(event(4, 8, EDIT_TAGS, at(9), Some("<d>"))), Outcome::Kept);
    assert_eq!(store.apply(event(5, 8, INITIAL_TAGS, at(1), Some("<e>"))), Outcome::Kept);
    assert_eq!(store.apply(event(6, 8, 2, at(99), Some("<f>"))), Outcome::NotTagEvent);
    assert_eq!(texts(&store), vec![(8, "<c>".to_string())]);
}

#[test]
fn posts_keep_order_of_first_event() {
    let store = reconcile(vec![
        event(1, 2, INITIAL_TAGS, at(1), Some("<a>")),
        event(2, 1, INITIAL_TAGS, at(2), Some("<b>")),
        event(3, 2, EDIT_TAGS, at(3), Some("<c>")),
    ]);
    assert_eq!(texts(&store), vec![(2, "<c>".to_string()), (1, "<b>".to_string())]);
}

#[test]
fn directory_skips_unnamed_rows_and_later_id_wins() {
    let mut dir = TagDirectory::new();
    assert!(!dir.add_row(TagRow { id: 1, tag_name: None }));
    assert!(dir.add_row(TagRow { id: 2, tag_name: Some("go".to_string()) }));
    assert!(dir.add_row(TagRow { id: 3, tag_name: Some("go".to_string()) }));
    assert_eq!(dir.lookup(&"go".to_string()), Some(3));
    assert_eq!(dir.lookup(&"Go".to_string()), None);
    let loaded = TagDirectory::load(vec![
        TagRow { id: 4, tag_name: Some("java".to_string()) },
        TagRow { id: 5, tag_name: None },
    ]);
    assert_eq!(loaded.lookup(&"java".to_string()), Some(4));
}

#[test]
fn resolution_keeps_repeats_and_reports_unknown() {
    let dir = directory(&[("python", 1), ("rust", 2)]);
    let r = resolve_post(9, "<rust><Rust><python><rust><>", &dir);
    assert_eq!(
        r.associations,
        vec![
            Association { post_id: 9, tag_id: 2 },
            Association { post_id: 9, tag_id: 1 },
            Association { post_id: 9, tag_id: 2 },
        ]
    );
    assert_eq!(r.unresolved, vec!["Rust".to_string(), "".to_string()]);
}

#[test]
fn resolution_is_repeatable() {
    let dir = directory(&[("a", 1)]);
    let first = resolve_post(1, "<a><b><a>", &dir);
    let second = resolve_post(1, "<a><b><a>", &dir);
    assert_eq!(first.associations, second.associations);
    assert_eq!(first.associations.len(), 2);
}

#[test]
fn destination_is_protected_unless_drop_allowed() {
    assert_eq!(destination_step(&config(false), true), Err(SetupError::DestinationExists));
    assert_eq!(destination_step(&config(false), false), Ok(DestinationStep::Create));
    assert_eq!(destination_step(&config(true), true), Ok(DestinationStep::DropThenCreate));
    assert_eq!(destination_step(&config(true), false), Ok(DestinationStep::DropThenCreate));
    assert_eq!(
        SetupError::DestinationExists.message(),
        "The destination table already exists. Refusing to work."
    );
}

#[test]
fn end_to_end_latest_text_resolved_in_token_order() {
    let dir = directory(&[("python", 1), ("rust", 2)]);
    let store = reconcile(vec![
        event(1, 42, INITIAL_TAGS, at(10), Some("<python>")),
        event(2, 42, EDIT_TAGS, at(20), Some("<rust><python>")),
    ]);
    assert_eq!(texts(&store), vec![(42, "<rust><python>".to_string())]);
    let snap = &store.entries()[0];
    let r = resolve_post(snap.post_id, &snap.text, &dir);
    assert_eq!(
        r.associations,
        vec![Association { post_id: 42, tag_id: 2 }, Association { post_id: 42, tag_id: 1 }]
    );
    assert!(r.unresolved.is_empty());
}

#[test]
fn end_to_end_tie_keeps_first_text() {
    let dir = directory(&[("python", 1), ("rust", 2)]);
    let store = reconcile(vec![
        event(1, 7, INITIAL_TAGS, at(5), Some("<python>")),
        event(2, 7, EDIT_TAGS, at(5), Some("<rust>")),
    ]);
    let snap = &store.entries()[0];
    assert_eq!(snap.text, "<python>");
    let r = resolve_post(snap.post_id, &snap.text, &dir);
    assert_eq!(r.associations, vec![Association { post_id: 7, tag_id: 1 }]);
}

#[test]
fn post_tags_row_gives_its_pair() {
    let row = post_tags::Model { id: 100, post_id: 3, tag_id: 4 };
    assert_eq!(row.association(), Association { post_id: 3, tag_id: 4 });
}
