use fracta::block::{Block, Inline};
use fracta::document::Document;
use fracta::ffi::{
    FfiAiEngine, FfiBuildStats, FfiChatMessage, FfiChatRole, FfiDocument, FfiEntry, FfiEntryKind, FfiError, FfiFsEvent,
    FfiFsEventKind, FfiLocation, FfiScope, FfiWalkOptions, FfiWatcher,
};
use fracta::front_matter::FrontMatter;
use fracta::ignore::IgnoreRules;
use fracta::index::BuildStats;
use fracta::location::{Entry, EntryKind, Location, Scope, VfsError};
use fracta::watcher::FsEvent;
use fracta::ai::ChatRole;

#[test]
fn errors_keep_paths_or_describe() {
    assert_eq!(FfiError::from_vfs(VfsError::NotFound("/a".into())), FfiError::NotFound { path: "/a".into() });
    assert_eq!(
        FfiError::from_vfs(VfsError::PermissionDenied("/r/.fracta/x".into())),
        FfiError::PermissionDenied { path: "/r/.fracta/x".into() }
    );
    assert_eq!(
        FfiError::from_vfs(VfsError::WatcherError("gone".into())),
        FfiError::Io { message: "watcher error: gone".into() }
    );
    assert_eq!(
        FfiError::from_vfs(VfsError::AtomicWriteFailed { path: "/a".into(), reason: "full".into() }),
        FfiError::Io { message: "atomic write failed for /a: full".into() }
    );
}

#[test]
fn entries_convert_with_rfc3339_times() {
    let e = Entry {
        path: "/r/a.md".into(),
        kind: EntryKind::File,
        name: "a.md".into(),
        extension: Some("md".into()),
        size: 3,
        modified: Some(0),
        created: None,
        scope: Scope::Ignored,
    };
    let f = FfiEntry::from_entry(e);
    assert_eq!(f.modified, "1970-01-01T00:00:00+00:00");
    assert_eq!(f.created, None);
    assert_eq!(f.kind, FfiEntryKind::File);
    assert_eq!(f.scope, FfiScope::Ignored);
    assert_eq!(FfiScope::from(Scope::Plain), FfiScope::Plain);
}

#[test]
fn stats_options_and_roles() {
    let stats = BuildStats { files_scanned: 3, markdown_indexed: 2, metadata_updated: 3, stale_removed: 1, duration_ms: 5 };
    let f = FfiBuildStats::from_stats(stats);
    assert_eq!((f.files_scanned, f.markdown_indexed, f.metadata_updated), (3, 2, 3));
    let o = FfiWalkOptions { include_ignored: true, max_depth: Some(4) }.to_walk_options();
    assert!(o.include_ignored);
    assert_eq!(o.max_depth, Some(4));
    assert_eq!(FfiChatRole::from(ChatRole::Assistant), FfiChatRole::Assistant);
    let m = FfiChatMessage { role: FfiChatRole::User, content: "hi".into() }.to_message();
    assert_eq!(m.role, ChatRole::User);
    assert_eq!(FfiAiEngine::new_echo().model_name(), "echo-v1");
}

#[test]
fn document_and_location_handles() {
    let fm = FrontMatter::parse("---\ntitle: Test Document\ntags: [rust, ffi]\n---\n");
    let doc = Document::new(fm, vec![Block::Paragraph { content: vec![Inline::Text { value: "test document".into() }] }]);
    let h = FfiDocument::from_document(doc);
    assert_eq!(h.title(), Some("Test Document".to_string()));
    assert!(h.has_front_matter());
    assert_eq!(h.front_matter_string_list("tags"), Some(vec!["rust".to_string(), "ffi".to_string()]));
    assert_eq!(h.block_count(), 1);
    assert_eq!(h.plain_text(), "test document");
    assert_eq!(h.front_matter_int("title"), None);

    let loc = FfiLocation { inner: Location::opened(1, "test".into(), "/r".into(), IgnoreRules::parse("*.tmp")) };
    assert_eq!(loc.root(), "/r");
    assert_eq!(loc.label(), "test");
    assert!(loc.is_managed());
    assert_eq!(loc.scope_of("/r/x.tmp", true, false), Some(FfiScope::Ignored));
    assert_eq!(loc.scope_of("/elsewhere", false, false), None);
}

#[test]
fn watcher_handle_drains_host_events() {
    let mut w = FfiWatcher::new();
    w.push_event(FsEvent::Renamed { from: "/r/a".into(), to: "/r/b".into() });
    assert!(w.has_pending_events());
    assert_eq!(
        w.drain_events(),
        vec![FfiFsEvent { kind: FfiFsEventKind::Renamed, path: "/r/b".into(), renamed_from: Some("/r/a".into()) }]
    );
    w.stop();
    w.push_event(FsEvent::Created("/r/c".into()));
    assert!(w.drain_events().is_empty());
}
