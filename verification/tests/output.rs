use ecd::detect::{Detection, SkipReason};
use ecd::output::{
    display_encoding, render_results, should_ignore, skip_reason_message, stats_line, FileResult,
    OutputConfig, OutputLine, Stats,
};

fn result(path: &str, detection: Detection) -> FileResult {
    FileResult { path: path.to_string(), detection }
}

fn lines(lines: &[OutputLine]) -> Vec<String> {
    lines
        .iter()
        .map(|l| match l {
            OutputLine::Stdout(s) => format!("out:{s}"),
            OutputLine::Stderr(s) => format!("err:{s}"),
        })
        .collect()
}

fn config(single: bool, ignore: Option<&str>, quiet: bool, verbose: bool) -> OutputConfig<'_> {
    OutputConfig { single_file_mode: single, ignore_encoding: ignore, quiet, verbose }
}

fn sample() -> Vec<FileResult> {
    vec![
        result("a.txt", Detection::Encoded("utf-8".to_string())),
        result("b.dat", Detection::Skip(SkipReason::Binary)),
        result("c.txt", Detection::Encoded("ascii".to_string())),
    ]
}

#[test]
fn batch_format() {
    let rep = render_results(&sample(), &config(false, None, false, false));
    assert_eq!(lines(&rep.lines), vec!["out:[UTF-8] a.txt", "out:[SKIP] b.dat", "out:[ASCII] c.txt"]);
    assert_eq!(rep.stats, Stats { checked: 3, printed: 2, skipped: 1, ignored: 0 });
}

#[test]
fn batch_ignore_quiet_verbose() {
    let rep = render_results(&sample(), &config(false, Some("ASCII"), true, true));
    assert_eq!(lines(&rep.lines), vec!["err:skip b.dat: binary content"]);
    assert_eq!(rep.stats, Stats { checked: 3, printed: 0, skipped: 1, ignored: 1 });
}

#[test]
fn single_file_prints_name_only() {
    let one = vec![result("a.txt", Detection::Encoded("gbk".to_string()))];
    let rep = render_results(&one, &config(true, None, false, false));
    assert_eq!(lines(&rep.lines), vec!["out:gbk"]);
    assert_eq!(rep.stats, Stats { checked: 1, printed: 1, skipped: 0, ignored: 0 });
    let ignored = render_results(&one, &config(true, Some("GBK"), false, false));
    assert!(ignored.lines.is_empty());
    assert_eq!(ignored.stats.ignored, 1);
}

#[test]
fn single_file_skip_is_verbose_only() {
    let one = vec![result("e.txt", Detection::Skip(SkipReason::Empty))];
    let quiet = render_results(&one, &config(true, None, false, false));
    assert!(quiet.lines.is_empty());
    assert_eq!(quiet.stats.skipped, 1);
    let verbose = render_results(&one, &config(true, None, false, true));
    assert_eq!(lines(&verbose.lines), vec!["err:skip e.txt: empty file"]);
}

#[test]
fn no_results() {
    let rep = render_results(&[], &config(true, None, false, true));
    assert!(rep.lines.is_empty());
    assert_eq!(rep.stats, Stats { checked: 0, printed: 0, skipped: 0, ignored: 0 });
}

#[test]
fn stats_text() {
    let stats = Stats { checked: 12, printed: 7, skipped: 3, ignored: 2 };
    assert_eq!(stats_line(&stats), "checked: 12, printed: 7, skipped: 3, ignored: 2");
    let zero = Stats { checked: 0, printed: 0, skipped: 0, ignored: 0 };
    assert_eq!(stats_line(&zero), "checked: 0, printed: 0, skipped: 0, ignored: 0");
}

#[test]
fn helpers() {
    assert!(should_ignore(Some("Utf-8"), "UTF-8"));
    assert!(!should_ignore(None, "utf-8"));
    assert!(!should_ignore(Some("gbk"), "big5"));
    assert_eq!(display_encoding("shift_jis"), "SHIFT_JIS");
    assert_eq!(skip_reason_message(&SkipReason::Empty), "empty file");
    assert_eq!(skip_reason_message(&SkipReason::Binary), "binary content");
    assert_eq!(skip_reason_message(&SkipReason::Unknown), "encoding unknown");
    assert_eq!(skip_reason_message(&SkipReason::ReadError("x".to_string())), "read error");
}
