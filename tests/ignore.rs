use fracta::ignore::IgnoreRules;

#[test]
fn test_empty_rules_ignore_nothing() {
    let rules = IgnoreRules::empty();
    assert!(!rules.is_ignored("anything.txt", false));
    assert!(!rules.is_ignored("any/path", true));
}

#[test]
fn test_simple_file_pattern() {
    let rules = IgnoreRules::parse("*.log");
    assert!(rules.is_ignored("debug.log", false));
    assert!(rules.is_ignored("sub/dir/app.log", false));
    assert!(!rules.is_ignored("readme.md", false));
}

#[test]
fn test_directory_only_pattern() {
    let rules = IgnoreRules::parse("build/");
    assert!(rules.is_ignored("build", true));
    assert!(!rules.is_ignored("build", false));
    assert!(rules.is_ignored("build/output.js", false));
}

#[test]
fn test_negation() {
    let rules = IgnoreRules::parse("*.log\n!important.log");
    assert!(rules.is_ignored("debug.log", false));
    assert!(!rules.is_ignored("important.log", false));
}

#[test]
fn test_anchored_pattern() {
    let rules = IgnoreRules::parse("/root_only");
    assert!(rules.is_ignored("root_only", false));
    assert!(!rules.is_ignored("sub/root_only", false));
}

#[test]
fn test_nested_path_pattern() {
    let rules = IgnoreRules::parse("logs/*.log");
    assert!(rules.is_ignored("logs/app.log", false));
    assert!(!rules.is_ignored("other/app.log", false));
}

#[test]
fn test_ancestor_directory_ignored() {
    let rules = IgnoreRules::parse("node_modules/");
    assert!(rules.is_ignored("node_modules", true));
    assert!(rules.is_ignored("node_modules/pkg/index.js", false));
    assert!(rules.is_ignored("node_modules/pkg/lib", true));
}

#[test]
fn test_default_rules() {
    let rules = IgnoreRules::default();
    assert!(rules.is_ignored(".git", true));
    assert!(rules.is_ignored(".DS_Store", false));
    assert!(rules.is_ignored("node_modules", true));
    assert!(rules.is_ignored("project/node_modules", true));
    assert!(!rules.is_ignored("readme.md", false));
}

#[test]
fn test_comments_and_blank_lines() {
    let rules = IgnoreRules::parse("# comment\n\n*.tmp\n  # indented comment\n");
    assert!(rules.is_ignored("test.tmp", false));
    assert!(!rules.is_ignored("test.txt", false));
}

#[test]
fn test_dotfile_pattern() {
    let rules = IgnoreRules::parse("._*");
    assert!(rules.is_ignored("._resource", false));
    assert!(!rules.is_ignored(".hidden", false));
}

#[test]
fn comments_and_blanks_compile_to_no_rule() {
    assert_eq!(IgnoreRules::parse("# only a comment\n\n   \n").len(), 0);
    assert_eq!(IgnoreRules::parse("a\r\nb/\n!c\n").len(), 3);
}

#[test]
fn a_later_negation_only_unignores_its_own_path() {
    let rules = IgnoreRules::parse("build/\n!build/keep.txt");
    assert!(rules.is_ignored("build/keep.txt", false));
    assert!(rules.matches_rules("build", true));
    assert!(!rules.matches_rules("build/keep.txt", false));
}

#[test]
fn default_rules_cover_editor_state() {
    let rules = IgnoreRules::default();
    assert!(rules.is_ignored("notes/draft.md.swp", false));
    assert!(rules.is_ignored("backup~", false));
    assert!(rules.is_ignored(".vscode/settings.json", false));
    assert!(rules.is_ignored("sub/target/debug", true));
    assert!(!rules.is_ignored("targets.md", false));
}

#[test]
fn deeply_nested_braces_are_dropped_not_panicking() {
    let line = format!("{}b{}", "{a,".repeat(300), "}".repeat(300));
    let rules = IgnoreRules::parse(&line);
    assert_eq!(rules.len(), 0);
    assert!(!rules.is_ignored("a/b", false));
    let mixed = IgnoreRules::parse(&format!("*.log\n{}\n", line));
    assert_eq!(mixed.len(), 1);
    assert!(mixed.is_ignored("x.log", false));
}
