use fracta::watcher::{classify_event, in_system_dir_path, DebouncedKind, EventQueue, FsEvent};

#[test]
fn system_directory_events_are_dropped() {
    assert!(in_system_dir_path("/r/.fracta/cache/x"));
    assert!(!in_system_dir_path("/r/notes/.fractal"));
    assert_eq!(classify_event("/r/.fracta/x".to_string(), DebouncedKind::Any, true), None);
}

#[test]
fn changes_become_modified_or_deleted() {
    assert_eq!(classify_event("/r/a.md".to_string(), DebouncedKind::Any, true), Some(FsEvent::Modified("/r/a.md".to_string())));
    assert_eq!(classify_event("/r/a.md".to_string(), DebouncedKind::Any, false), Some(FsEvent::Deleted("/r/a.md".to_string())));
    assert_eq!(
        classify_event("/r/a.md".to_string(), DebouncedKind::AnyContinuous, false),
        Some(FsEvent::Modified("/r/a.md".to_string()))
    );
}

#[test]
fn drain_takes_everything_and_stop_is_final() {
    let mut q = EventQueue::new();
    assert!(!q.has_pending_events());
    q.push(FsEvent::Created("/r/a".to_string()));
    q.push(FsEvent::Deleted("/r/b".to_string()));
    assert!(q.has_pending_events());
    assert_eq!(q.drain_events(), vec![FsEvent::Created("/r/a".to_string()), FsEvent::Deleted("/r/b".to_string())]);
    assert!(q.drain_events().is_empty());
    q.push(FsEvent::Modified("/r/c".to_string()));
    q.stop();
    q.push(FsEvent::Modified("/r/d".to_string()));
    assert!(!q.has_pending_events());
    assert!(q.drain_events().is_empty());
}
