use ecd::cli::CheckArgs;

fn args() -> CheckArgs {
    CheckArgs {
        files: vec![],
        dirs: vec![],
        recursive: false,
        pattern: None,
        ignore_encoding: None,
        excludes: vec![],
        no_default_excludes: false,
        jobs: None,
        verbose: false,
        quiet: false,
    }
}

#[test]
fn default_excludes_come_first() {
    let a = CheckArgs { excludes: vec!["vendor".to_string()], ..args() };
    assert_eq!(a.effective_excludes(), vec![".git", "node_modules", "target", "vendor"]);
    let b = CheckArgs { no_default_excludes: true, ..a };
    assert_eq!(b.effective_excludes(), vec!["vendor"]);
}

#[test]
fn pattern_defaults_to_star() {
    assert_eq!(args().effective_pattern(), "*");
    let a = CheckArgs { pattern: Some("*.rs".to_string()), ..args() };
    assert_eq!(a.effective_pattern(), "*.rs");
}

#[test]
fn effective_dirs_and_single_file_mode() {
    assert!(args().effective_dirs().is_empty());
    let p = CheckArgs { pattern: Some("*.rs".to_string()), ..args() };
    assert_eq!(p.effective_dirs(), vec!["."]);
    let one = CheckArgs { files: vec!["a".to_string()], recursive: true, ..args() };
    assert!(one.effective_dirs().is_empty());
    assert!(one.is_single_file_mode());
    let two = CheckArgs { files: vec!["a".to_string(), "b".to_string()], ..args() };
    assert!(!two.is_single_file_mode());
    let mixed = CheckArgs { files: vec!["a".to_string()], dirs: vec!["d".to_string()], ..args() };
    assert!(!mixed.is_single_file_mode());
}
