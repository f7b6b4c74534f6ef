use fracta::block::{Block, Inline};
use fracta::document::Document;
use fracta::front_matter::FrontMatter;
use fracta::ignore::IgnoreRules;
use fracta::location::{Entry, EntryKind, Location, Scope};
use fracta::index::{
    build_metadata_query, current_paths, select_indexable, directory_patterns, is_markdown_path, metadata_from_document, needs_update,
    plan_index_file, stale_paths, tag_like_pattern, BuildStats, SqlParam, WriterState, IndexError,
};

const SEC: i64 = 1_000_000_000;

#[test]
fn mtime_tolerance_is_one_second() {
    assert!(!needs_update(Some(10 * SEC), Some(10 * SEC)));
    assert!(!needs_update(Some(10 * SEC + SEC / 2), Some(10 * SEC)));
    assert!(!needs_update(Some(11 * SEC), Some(10 * SEC)));
    assert!(needs_update(Some(11 * SEC + 1), Some(10 * SEC)));
    assert!(needs_update(Some(10 * SEC + SEC + SEC / 2), Some(10 * SEC)));
    assert!(needs_update(Some(12 * SEC), Some(10 * SEC)));
    assert!(needs_update(Some(1_500_000_000), Some(0)));
    assert!(needs_update(Some(8 * SEC), Some(10 * SEC)));
    assert!(needs_update(None, Some(10 * SEC)));
    assert!(needs_update(Some(10 * SEC), None));
    assert!(needs_update(Some(i64::MAX), Some(i64::MIN)));
}

#[test]
fn markdown_paths() {
    assert!(is_markdown_path("a.md"));
    assert!(is_markdown_path("dir/b.markdown"));
    assert!(!is_markdown_path("c.txt"));
    assert!(!is_markdown_path("md"));
}

#[test]
fn metadata_search_binds_every_value() {
    let evil = "'; DROP TABLE files; --";
    let q = build_metadata_query(Some(evil), Some("rust"), None, Some("2025-12-31"), 10);
    assert_eq!(
        q.sql,
        "SELECT f.path FROM files f LEFT JOIN metadata m ON f.path = m.path WHERE 1=1 AND m.area = ? AND m.tags LIKE ? AND m.date <= ? ORDER BY f.mtime DESC LIMIT ?"
    );
    assert!(!q.sql.contains("DROP"));
    assert_eq!(
        q.params,
        vec![
            SqlParam::Text(evil.to_string()),
            SqlParam::Text("%\"rust%".to_string()),
            SqlParam::Text("2025-12-31".to_string()),
            SqlParam::Int(10),
        ]
    );
    let plain = build_metadata_query(Some("library"), Some("x"), None, Some("y"), 10);
    assert_eq!(plain.sql, q.sql);
    let none = build_metadata_query(None, None, None, None, usize::MAX);
    assert_eq!(none.params, vec![SqlParam::Int(i64::MAX)]);
    assert_eq!(tag_like_pattern("a\"b"), "%\"a\"b%");
}

#[test]
fn cached_listing_patterns() {
    assert_eq!(directory_patterns(""), ("%".to_string(), "%/%".to_string()));
    assert_eq!(directory_patterns("notes"), ("notes/%".to_string(), "notes/%/%".to_string()));
}

#[test]
fn stale_paths_are_the_set_difference() {
    let stored = vec!["a.md".to_string(), "b.md".to_string(), "c.txt".to_string()];
    let current = vec!["c.txt".to_string(), "a.md".to_string()];
    assert_eq!(stale_paths(&stored, &current), vec!["b.md".to_string()]);
    assert_eq!(stale_paths(&stored, &Vec::new()), stored);
    assert_eq!(stale_paths(&Vec::new(), &current), Vec::<String>::new());
}

#[test]
fn index_plan_of_markdown_and_other_files() {
    let fm = FrontMatter::parse("---\ntitle: Rust Guide\ntags: [rust, programming]\narea: library\n---\n");
    let doc = Document::new(
        fm,
        vec![Block::Paragraph { content: vec![Inline::Text { value: "Rust is a systems programming language.".into() }] }],
    );
    let plan = plan_index_file("a.md".to_string(), 5, 12, Some(&doc));
    assert!(plan.file.indexed);
    let (meta, text) = plan.document.unwrap();
    assert_eq!(meta.title, Some("Rust Guide".to_string()));
    assert_eq!(meta.tags, vec!["rust".to_string(), "programming".to_string()]);
    assert_eq!(meta.area, Some("library".to_string()));
    assert_eq!(meta.date, None);
    assert_eq!(text, "Rust is a systems programming language.");

    let other = plan_index_file("b.txt".to_string(), 5, 3, None);
    assert!(!other.file.indexed);
    assert!(other.document.is_none());
    assert_eq!(other.file.path, "b.txt");
}

#[test]
fn title_falls_back_to_heading_in_metadata() {
    let doc = Document::new(None, vec![Block::Heading { level: 1, content: vec![Inline::Text { value: "Head".into() }] }]);
    let meta = metadata_from_document(&doc);
    assert_eq!(meta.title, Some("Head".to_string()));
    assert!(meta.tags.is_empty());
}

#[test]
fn build_stats_count_files() {
    let mut stats = BuildStats::default();
    stats.record_file(true);
    stats.record_file(false);
    assert_eq!(stats.metadata_updated, 2);
    assert_eq!(stats.markdown_indexed, 1);
}

#[test]
fn writer_must_be_open() {
    assert!(WriterState::Open.require_open().is_ok());
    assert!(matches!(WriterState::Idle.require_open(), Err(IndexError::InvalidState(_))));
}

fn entry(path: &str, kind: EntryKind, scope: Scope) -> Entry {
    Entry { path: path.to_string(), kind, name: String::new(), extension: None, size: 0, modified: None, created: None, scope }
}

#[test]
fn builds_select_managed_files_and_their_paths() {
    let loc = Location::opened(1, "t".into(), "/r".into(), IgnoreRules::empty());
    let entries = vec![
        entry("/r/a.md", EntryKind::File, Scope::Managed),
        entry("/r/sub", EntryKind::Folder, Scope::Managed),
        entry("/r/x.log", EntryKind::File, Scope::Ignored),
        entry("/r/sub/b.md", EntryKind::File, Scope::Managed),
    ];
    let files = select_indexable(entries);
    let paths: Vec<String> = files.iter().map(|e| e.path.clone()).collect();
    assert_eq!(paths, vec!["/r/a.md".to_string(), "/r/sub/b.md".to_string()]);
    assert_eq!(current_paths(&loc, &files), vec!["a.md".to_string(), "sub/b.md".to_string()]);
}
