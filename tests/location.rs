use fracta::ignore::IgnoreRules;
use fracta::location::{file_extension, listed_before_exec, path_within, resolve_pending, Location, Scope, VfsError, WalkOptions};

fn managed(rules: &str) -> Location {
    Location::opened(7, "test".to_string(), "/data/loc".to_string(), IgnoreRules::parse(rules))
}

#[test]
fn test_scope_unmanaged_is_plain() {
    let loc = Location::new("test".to_string(), "/data/loc".to_string());
    assert_eq!(loc.scope_of("/data/loc", true, true), Some(Scope::Plain));
}

#[test]
fn test_scope_outside_location() {
    let loc = Location::new("test".to_string(), "/tmp/my-location".to_string());
    assert_eq!(loc.scope_of("/tmp/other", false, false), None);
}

#[test]
fn scope_follows_ignore_rules_and_ancestors() {
    let loc = managed("*.log\nbuild/\n");
    assert_eq!(loc.scope_of("/data/loc/notes/a.md", true, false), Some(Scope::Managed));
    assert_eq!(loc.scope_of("/data/loc/app.log", true, false), Some(Scope::Ignored));
    assert_eq!(loc.scope_of("/data/loc/build", true, true), Some(Scope::Ignored));
    assert_eq!(loc.scope_of("/data/loc/build/out.js", true, false), Some(Scope::Ignored));
    assert_eq!(loc.scope_of("/data/loc", true, true), Some(Scope::Managed));
    assert_eq!(loc.scope_of("/data/loc/.fracta/cache/x.log", true, false), Some(Scope::Managed));
}

#[test]
fn writes_into_the_system_directory_are_denied() {
    let loc = managed("");
    assert_eq!(
        loc.check_writable("/data/loc/.fracta/evil.txt", true),
        Err(VfsError::PermissionDenied("/data/loc/.fracta/evil.txt".to_string()))
    );
    assert_eq!(
        loc.check_writable("/tmp/outside.txt", false),
        Err(VfsError::OutsideLocation("/tmp/outside.txt".to_string()))
    );
    assert_eq!(loc.check_writable("/data/loc/a.md", true), Ok(()));
    assert_eq!(loc.check_writable("/data/loc/.fractal", true), Ok(()));
}

#[test]
fn relative_paths_and_system_dir() {
    let loc = managed("");
    assert_eq!(loc.relative_path("/data/loc/sub/a.md"), Some("sub/a.md".to_string()));
    assert_eq!(loc.relative_path("/data/loc"), Some("".to_string()));
    assert_eq!(loc.relative_path("/data/locker/a.md"), None);
    assert_eq!(loc.fracta_dir(), "/data/loc/.fracta");
    assert!(loc.is_managed());
    assert_eq!(loc.root(), "/data/loc");
    assert_eq!(loc.label(), "test");
}

#[test]
fn containment_rejects_traversal_and_escape() {
    assert!(path_within("/data/loc", "/data/loc/a/b"));
    assert!(!path_within("/data/loc", "/data/other"));
    assert!(!path_within("/data/loc", "/data/locker"));
    let pending = vec!["new".to_string(), "file.md".to_string()];
    assert_eq!(resolve_pending("/data/loc", "/data/loc/sub", &pending), Some("/data/loc/sub/new/file.md".to_string()));
    let up = vec!["..".to_string(), "x".to_string()];
    assert_eq!(resolve_pending("/data/loc", "/data/loc", &up), None);
    let plain = vec!["x".to_string()];
    assert_eq!(resolve_pending("/data/loc", "/etc", &plain), None);
}

#[test]
fn extensions() {
    assert_eq!(file_extension("notes.MD"), Some("MD".to_string()));
    assert_eq!(file_extension("archive.tar.gz"), Some("gz".to_string()));
    assert_eq!(file_extension(".hidden"), None);
    assert_eq!(file_extension("README"), None);
    assert_eq!(file_extension(".."), None);
    assert_eq!(file_extension("trailing."), Some("".to_string()));
}

#[test]
fn walk_options_decide_depth_and_ignored_entries() {
    let opts = WalkOptions { include_ignored: false, max_depth: Some(2) };
    assert!(opts.depth_allowed(1));
    assert!(!opts.depth_allowed(2));
    assert!(!opts.records(Scope::Ignored));
    assert!(opts.records(Scope::Managed));
    let all = WalkOptions { include_ignored: true, max_depth: None };
    assert!(all.depth_allowed(1000));
    assert!(all.records(Scope::Ignored));
    assert!(Scope::Managed.is_managed());
    assert!(!Scope::Plain.is_managed());
}

#[test]
fn entries_are_built_from_filesystem_facts() {
    let loc = managed("*.log\n");
    let f = loc.build_entry("/data/loc/sub/Notes.MD", false, 42, Some(5), None, true);
    assert_eq!(f.name, "Notes.MD");
    assert_eq!(f.extension, Some("md".to_string()));
    assert_eq!(f.size, 42);
    assert_eq!(f.scope, Scope::Managed);
    let d = loc.build_entry("/data/loc/sub", true, 4096, None, None, true);
    assert_eq!(d.size, 0);
    assert_eq!(d.extension, None);
    let ignored = loc.build_entry("/data/loc/x.log", false, 1, None, None, true);
    assert_eq!(ignored.scope, Scope::Ignored);
    let outside = loc.build_entry("/elsewhere/a.md", false, 1, None, None, false);
    assert_eq!(outside.scope, Scope::Plain);
}

#[test]
fn listing_puts_folders_first_then_names_case_insensitively() {
    let loc = managed("");
    let folder = loc.build_entry("/data/loc/zeta", true, 0, None, None, true);
    let a = loc.build_entry("/data/loc/apple.md", false, 0, None, None, true);
    let b = loc.build_entry("/data/loc/Banana.md", false, 0, None, None, true);
    assert!(listed_before_exec(&folder, &a));
    assert!(!listed_before_exec(&a, &folder));
    assert!(listed_before_exec(&a, &b));
    assert!(!listed_before_exec(&b, &a));
    assert!(!listed_before_exec(&a, &a));
}
