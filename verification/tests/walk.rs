use ecd::cli::CheckArgs;
use ecd::error::EcdError;
use ecd::pathorder::path_order;
use ecd::walk::{
    effective_pattern, file_name, keeps_entry, path_matches, root_action, scan_filter, scan_roots,
    GlobError, RootAction, RootKind, ScanRoot,
};

fn args() -> CheckArgs {
    CheckArgs {
        files: vec![],
        dirs: vec![],
        recursive: false,
        pattern: None,
        ignore_encoding: None,
        excludes: vec![],
        no_default_excludes: false,
        jobs: None,
        verbose: false,
        quiet: false,
    }
}

#[test]
fn recursive_expands_simple_glob() {
    assert_eq!(effective_pattern("*.java", true), "**/*.java");
}

#[test]
fn recursive_keeps_explicit_glob() {
    assert_eq!(effective_pattern("**/*.rs", true), "**/*.rs");
}

#[test]
fn shallow_strips_recursive_prefix() {
    assert_eq!(effective_pattern("**/*.java", false), "*.java");
}

#[test]
fn pattern_edge_cases() {
    assert_eq!(effective_pattern("src/*.rs", true), "src/*.rs");
    assert_eq!(effective_pattern("**/**/*.md", false), "*.md");
    assert_eq!(effective_pattern("*", false), "*");
    assert_eq!(effective_pattern("", true), "**/");
}

#[test]
fn no_input_is_an_error() {
    assert!(matches!(scan_roots(&args()), Err(EcdError::NoInput)));
    assert_eq!(
        EcdError::NoInput.message(),
        "no input: provide at least one --file (-f) or --directory (-d)"
    );
}

#[test]
fn roots_are_files_then_dirs() {
    let a = CheckArgs {
        files: vec!["a.txt".to_string()],
        dirs: vec!["src".to_string(), "docs".to_string()],
        ..args()
    };
    let roots = scan_roots(&a).unwrap();
    let texts: Vec<String> = roots
        .iter()
        .map(|r| match r {
            ScanRoot::File(p) => format!("f:{p}"),
            ScanRoot::Dir(p) => format!("d:{p}"),
        })
        .collect();
    assert_eq!(texts, vec!["f:a.txt", "d:src", "d:docs"]);
}

#[test]
fn recursive_without_dirs_scans_current_dir() {
    let a = CheckArgs { recursive: true, ..args() };
    let roots = scan_roots(&a).unwrap();
    assert_eq!(roots.len(), 1);
    assert!(matches!(&roots[0], ScanRoot::Dir(p) if p == "."));
}

#[test]
fn root_actions() {
    let file = ScanRoot::File("x".to_string());
    let dir = ScanRoot::Dir("d".to_string());
    match root_action(&file, RootKind::Missing) {
        RootAction::Fail(e) => assert_eq!(e.message(), "path not found: x"),
        other => panic!("unexpected {other:?}"),
    }
    assert!(matches!(root_action(&file, RootKind::File), RootAction::AddIfMatches));
    assert!(matches!(root_action(&file, RootKind::Other), RootAction::Skip));
    assert!(matches!(root_action(&dir, RootKind::File), RootAction::AddIfMatches));
    assert!(matches!(root_action(&dir, RootKind::Other), RootAction::Walk));
}

#[test]
fn excluded_directories() {
    let excludes = vec![".git".to_string(), "target".to_string(), "vendor".to_string()];
    assert!(!keeps_entry(true, ".git", &excludes));
    assert!(!keeps_entry(true, "vendor", &excludes));
    assert!(keeps_entry(false, "target", &excludes));
    assert!(keeps_entry(true, "src", &excludes));
}

fn ordered(paths: &[&str]) -> Vec<String> {
    let owned: Vec<String> = paths.iter().map(|p| p.to_string()).collect();
    path_order(&owned).into_iter().map(|i| owned[i].clone()).collect()
}

#[test]
fn paths_order_by_components() {
    assert_eq!(ordered(&["a-b/x", "a/x", "a/b"]), vec!["a/b", "a/x", "a-b/x"]);
    assert_eq!(ordered(&["b", "/z", "./a", "../c", "a"]), vec!["/z", "./a", "../c", "a", "b"]);
}

#[test]
fn equal_paths_are_reported_once() {
    assert_eq!(ordered(&["src//main.rs", "src/main.rs", "src/./main.rs/"]), vec!["src//main.rs"]);
    assert_eq!(ordered(&["b", "a", "b", "a"]), vec!["a", "b"]);
    assert!(ordered(&[]).is_empty());
}

#[test]
fn file_name_is_last_normal_component() {
    assert_eq!(file_name("src/main.rs"), "main.rs");
    assert_eq!(file_name("/a/b/"), "b");
    assert_eq!(file_name("a/.."), "");
    assert_eq!(file_name("/"), "");
    assert_eq!(file_name(""), "");
}

#[test]
fn shallow_filter_matches_file_names() {
    let f = scan_filter("*.txt", false).unwrap();
    assert!(path_matches(&f, "notes.txt"));
    assert!(path_matches(&f, "docs/notes.txt"));
    assert!(!path_matches(&f, "docs/notes.md"));
}

#[test]
fn recursive_filter_matches_at_any_depth() {
    let f = scan_filter("*.rs", true).unwrap();
    assert!(path_matches(&f, "a/b/c/lib.rs"));
    assert!(!path_matches(&f, "a/b/c/lib.rsx"));
    let g = scan_filter("src/*.rs", true).unwrap();
    assert!(path_matches(&g, "src/lib.rs"));
    assert!(!path_matches(&g, "tests/lib.rs"));
}

#[test]
fn invalid_pattern_is_refused() {
    match scan_filter("a[", false) {
        Err(e @ GlobError::Invalid(_)) => assert!(e.message().starts_with("invalid glob pattern: ")),
        Err(GlobError::Compile(m)) => panic!("unexpected compile error {m}"),
        Ok(_) => panic!("pattern accepted"),
    }
}
