use fracta::location::{Entry, EntryKind, Scope, WalkOptions};
use fracta::walk::{WalkStep, Walker};

fn entry(path: &str, name: &str, kind: EntryKind, scope: Scope) -> Entry {
    Entry {
        path: path.to_string(),
        kind,
        name: name.to_string(),
        extension: None,
        size: 0,
        modified: None,
        created: None,
        scope,
    }
}

fn names(entries: &[Entry]) -> Vec<String> {
    entries.iter().map(|e| e.name.clone()).collect()
}

#[test]
fn walk_is_preorder_and_skips_system_and_ignored() {
    let mut w = Walker::new(WalkOptions { include_ignored: false, max_depth: None });
    assert!(w.reads_root());
    w.push_listing(
        0,
        vec![
            entry("/r/a", "a", EntryKind::Folder, Scope::Managed),
            entry("/r/.fracta", ".fracta", EntryKind::Folder, Scope::Managed),
            entry("/r/node_modules", "node_modules", EntryKind::Folder, Scope::Ignored),
            entry("/r/z.md", "z.md", EntryKind::File, Scope::Managed),
        ],
    );
    match w.step() {
        WalkStep::Descend { path, depth } => {
            assert_eq!(path, "/r/a");
            assert_eq!(depth, 1);
        }
        WalkStep::Done => panic!("expected to descend into a"),
    }
    w.push_listing(1, vec![entry("/r/a/b.md", "b.md", EntryKind::File, Scope::Managed)]);
    assert!(matches!(w.step(), WalkStep::Done));
    assert_eq!(names(&w.finish()), vec!["a", "b.md", "z.md"]);
}

#[test]
fn walk_records_ignored_on_request_and_respects_depth() {
    let mut w = Walker::new(WalkOptions { include_ignored: true, max_depth: Some(1) });
    w.push_listing(
        0,
        vec![
            entry("/r/build", "build", EntryKind::Folder, Scope::Ignored),
            entry("/r/x.md", "x.md", EntryKind::File, Scope::Managed),
        ],
    );
    assert!(matches!(w.step(), WalkStep::Done));
    assert_eq!(names(&w.finish()), vec!["build", "x.md"]);

    let w0 = Walker::new(WalkOptions { include_ignored: false, max_depth: Some(0) });
    assert!(!w0.reads_root());
}
