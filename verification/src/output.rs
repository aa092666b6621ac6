//! What the `check` command prints for its results, and the statistics it keeps.

use vstd::prelude::*;

use crate::detect::{Detection, SkipReason};
use crate::text::{
    append_str, ascii_lower, ascii_upper, decimal, eq_ignore_ascii_case, push_decimal,
    to_ascii_uppercase, to_owned_string,
};

verus! {

/// The detection for one file.
#[derive(Debug, Clone)]
pub struct FileResult {
    /// The file's path, as text.
    pub path: String,
    /// What detection found.
    pub detection: Detection,
}

/// How results are printed.
pub struct OutputConfig<'a> {
    /// One file was given and no directory: print the bare encoding name.
    pub single_file_mode: bool,
    /// Results in this encoding (in any ASCII case) are counted as ignored and not printed.
    pub ignore_encoding: Option<&'a str>,
    /// Print nothing on standard output.
    pub quiet: bool,
    /// Report each skipped file on standard error.
    pub verbose: bool,
}

/// Counts kept while printing results.
#[derive(Debug, Clone, Copy, PartialEq, Eq)]
pub struct Stats {
    /// Number of results.
    pub checked: usize,
    /// Number of encoding lines printed.
    pub printed: usize,
    /// Number of skipped files.
    pub skipped: usize,
    /// Number of files whose encoding was ignored.
    pub ignored: usize,
}

/// One line of output.
#[derive(Debug, Clone)]
pub enum OutputLine {
    /// A line for standard output.
    Stdout(String),
    /// A line for standard error.
    Stderr(String),
}

/// A line of output, over plain values.
pub enum Line {
    /// A line for standard output.
    ToStdout(Seq<char>),
    /// A line for standard error.
    ToStderr(Seq<char>),
}

/// The plain value of an output line.
pub open spec fn line_view(l: OutputLine) -> Line {
    match l {
        OutputLine::Stdout(s) => Line::ToStdout(s@),
        OutputLine::Stderr(s) => Line::ToStderr(s@),
    }
}

/// The plain values of output lines.
pub open spec fn lines_view(ls: Seq<OutputLine>) -> Seq<Line> {
    ls.map_values(|l: OutputLine| line_view(l))
}

/// The result of printing: the lines in order, and the counts.
pub struct Report {
    /// The lines to print, in order.
    pub lines: Vec<OutputLine>,
    /// The counts.
    pub stats: Stats,
}

/// A result is ignored when an ignored encoding is set and equals its encoding up to
/// ASCII case.
pub open spec fn spec_should_ignore(ignore: Option<Seq<char>>, encoding: Seq<char>) -> bool {
    ignore matches Some(i) && ascii_lower(i) == ascii_lower(encoding)
}

/// Whether results in `encoding` are ignored.
pub fn should_ignore(ignore: Option<&str>, encoding: &str) -> (r: bool)
    ensures
        r == spec_should_ignore(
            match ignore {
                Some(i) => Some(i@),
                None => None,
            },
            encoding@,
        ),
{
    match ignore {
        Some(i) => eq_ignore_ascii_case(i, encoding),
        None => false,
    }
}

/// The ignored encoding of a configuration, as characters.
pub open spec fn ignore_view(config: OutputConfig) -> Option<Seq<char>> {
    match config.ignore_encoding {
        Some(i) => Some(i@),
        None => None,
    }
}

/// How an encoding is shown in batch output: upper case.
pub fn display_encoding(enc: &str) -> (r: String)
    ensures
        r@ == ascii_upper(enc@),
{
    to_ascii_uppercase(enc)
}

/// How a path is shown in output: as given.
pub fn display_path(path: &str) -> (r: String)
    ensures
        r@ == path@,
{
    to_owned_string(path)
}

/// The message that explains a skip.
pub open spec fn skip_reason_text(reason: SkipReason) -> Seq<char> {
    match reason {
        SkipReason::Empty => "empty file"@,
        SkipReason::Binary => "binary content"@,
        SkipReason::Unknown => "encoding unknown"@,
        SkipReason::ReadError(_) => "read error"@,
    }
}

/// The message that explains a skip.
pub fn skip_reason_message(reason: &SkipReason) -> (r: &'static str)
    ensures
        r@ == skip_reason_text(*reason),
{
    match reason {
        SkipReason::Empty => "empty file",
        SkipReason::Binary => "binary content",
        SkipReason::Unknown => "encoding unknown",
        SkipReason::ReadError(_) => "read error",
    }
}

/// The standard-error line that reports a skipped file.
pub open spec fn skip_line(path: Seq<char>, reason: SkipReason) -> Line {
    Line::ToStderr("skip "@ + path + ": "@ + skip_reason_text(reason))
}

/// The lines printed for one result in batch mode.
pub open spec fn batch_lines_of(r: FileResult, config: OutputConfig) -> Seq<Line> {
    match r.detection {
        Detection::Encoded(enc) => if spec_should_ignore(ignore_view(config), enc@) || config.quiet {
            Seq::<Line>::empty()
        } else {
            seq![Line::ToStdout("["@ + ascii_upper(enc@) + "] "@ + r.path@)]
        },
        Detection::Skip(reason) => (if config.quiet {
            Seq::<Line>::empty()
        } else {
            seq![Line::ToStdout("[SKIP] "@ + r.path@)]
        }) + (if config.verbose {
            seq![skip_line(r.path@, reason)]
        } else {
            Seq::<Line>::empty()
        }),
    }
}

/// The lines printed for a list of results in batch mode.
pub open spec fn batch_lines(rs: Seq<FileResult>, config: OutputConfig) -> Seq<Line>
    decreases rs.len(),
{
    if rs.len() == 0 {
        Seq::<Line>::empty()
    } else {
        batch_lines(rs.drop_last(), config) + batch_lines_of(rs.last(), config)
    }
}

/// The result printed an encoding line (batch mode) or would have but for quiet mode.
pub open spec fn is_shown_encoding(r: FileResult, config: OutputConfig) -> bool {
    r.detection matches Detection::Encoded(enc) && !spec_should_ignore(ignore_view(config), enc@)
}

/// The result's encoding is ignored.
pub open spec fn is_ignored(r: FileResult, config: OutputConfig) -> bool {
    r.detection matches Detection::Encoded(enc) && spec_should_ignore(ignore_view(config), enc@)
}

/// Number of results among `rs` that satisfy `p`.
pub open spec fn count_where(rs: Seq<FileResult>, p: spec_fn(FileResult) -> bool) -> nat
    decreases rs.len(),
{
    if rs.len() == 0 {
        0
    } else {
        count_where(rs.drop_last(), p) + if p(rs.last()) {
            1nat
        } else {
            0nat
        }
    }
}

/// The counts for a list of results in batch mode.
pub open spec fn batch_stats(rs: Seq<FileResult>, config: OutputConfig) -> (nat, nat, nat) {
    (
        if config.quiet {
            0
        } else {
            count_where(rs, |r: FileResult| is_shown_encoding(r, config))
        },
        count_where(rs, |r: FileResult| r.detection is Skip),
        count_where(rs, |r: FileResult| is_ignored(r, config)),
    )
}

/// The lines and counts of single-file mode, which looks at the first result only.
pub open spec fn single_output(rs: Seq<FileResult>, config: OutputConfig) -> (Seq<Line>, (nat, nat, nat)) {
    if rs.len() == 0 {
        (Seq::<Line>::empty(), (0, 0, 0))
    } else {
        let r = rs[0];
        match r.detection {
            Detection::Encoded(enc) => if spec_should_ignore(ignore_view(config), enc@) {
                (Seq::<Line>::empty(), (0, 0, 1))
            } else if config.quiet {
                (Seq::<Line>::empty(), (0, 0, 0))
            } else {
                (seq![Line::ToStdout(enc@)], (1, 0, 0))
            },
            Detection::Skip(reason) => (
                if config.verbose {
                    seq![skip_line(r.path@, reason)]
                } else {
                    Seq::<Line>::empty()
                },
                (0, 1, 0),
            ),
        }
    }
}

/// The report matches the given lines and (printed, skipped, ignored) counts.
pub open spec fn report_is(rep: Report, lines: Seq<Line>, counts: (nat, nat, nat)) -> bool {
    &&& lines_view(rep.lines@) == lines
    &&& rep.stats.printed == counts.0
    &&& rep.stats.skipped == counts.1
    &&& rep.stats.ignored == counts.2
}

/// Appends the standard-error line that reports a skipped file.
fn push_skip_line(lines: &mut Vec<OutputLine>, path: &str, reason: &SkipReason)
    ensures
        lines_view(final(lines)@) == lines_view(old(lines)@).push(skip_line(path@, *reason)),
{
    let mut s = to_owned_string("skip ");
    append_str(&mut s, path);
    append_str(&mut s, ": ");
    append_str(&mut s, skip_reason_message(reason));
    lines.push(OutputLine::Stderr(s));
    assert(lines_view(lines@) =~= lines_view(old(lines)@).push(skip_line(path@, *reason)));
}

/// The lines to print for `results` and the counts kept while printing them.
///
/// In single-file mode only the first result is reported, by its bare encoding name; in
/// batch mode each result is reported as `[ENCODING] path` or `[SKIP] path`. Ignored
/// encodings are counted and not printed, quiet mode prints nothing on standard output,
/// and verbose mode reports every skip on standard error.
pub fn render_results(results: &[FileResult], config: &OutputConfig) -> (rep: Report)
    ensures
        rep.stats.checked == results@.len(),
        config.single_file_mode ==> report_is(rep, single_output(results@, *config).0, single_output(results@, *config).1),
        !config.single_file_mode ==> report_is(rep, batch_lines(results@, *config), batch_stats(results@, *config)),
{
    let mut lines: Vec<OutputLine> = Vec::new();
    let mut printed: usize = 0;
    let mut skipped: usize = 0;
    let mut ignored: usize = 0;
    let n = results.len();
    if config.single_file_mode {
        if n > 0 {
            let result = &results[0];
            match &result.detection {
                Detection::Encoded(enc) => {
                    if should_ignore(config.ignore_encoding, enc.as_str()) {
                        ignored = 1;
                    } else if !config.quiet {
                        lines.push(OutputLine::Stdout(to_owned_string(enc.as_str())));
                        printed = 1;
                    }
                },
                Detection::Skip(reason) => {
                    skipped = 1;
                    if config.verbose {
                        push_skip_line(&mut lines, result.path.as_str(), reason);
                    }
                },
            }
        }
        let rep = Report { lines, stats: Stats { checked: n, printed, skipped, ignored } };
        assert(lines_view(rep.lines@) =~= single_output(results@, *config).0);
        return rep;
    }
    let mut i: usize = 0;
    while i < n
        invariant
            n == results@.len(),
            i <= n,
            !config.single_file_mode,
            lines_view(lines@) == batch_lines(results@.take(i as int), *config),
            (printed as nat, skipped as nat, ignored as nat) == batch_stats(results@.take(i as int), *config),
            printed <= i,
            skipped <= i,
            ignored <= i,
        decreases n - i,
    {
        proof {
            lemma_count_bounded(results@.take(i as int), |r: FileResult| is_shown_encoding(r, *config));
            lemma_count_bounded(results@.take(i as int), |r: FileResult| r.detection is Skip);
            lemma_count_bounded(results@.take(i as int), |r: FileResult| is_ignored(r, *config));
        }
        let ghost before = lines_view(lines@);
        let result = &results[i];
        match &result.detection {
            Detection::Encoded(enc) => {
                if should_ignore(config.ignore_encoding, enc.as_str()) {
                    ignored = ignored + 1;
                } else if !config.quiet {
                    let mut s = to_owned_string("[");
                    let upper = display_encoding(enc.as_str());
                    append_str(&mut s, upper.as_str());
                    append_str(&mut s, "] ");
                    let shown = display_path(result.path.as_str());
                    append_str(&mut s, shown.as_str());
                    lines.push(OutputLine::Stdout(s));
                    printed = printed + 1;
                }
            },
            Detection::Skip(reason) => {
                skipped = skipped + 1;
                if !config.quiet {
                    let mut s = to_owned_string("[SKIP] ");
                    let shown = display_path(result.path.as_str());
                    append_str(&mut s, shown.as_str());
                    lines.push(OutputLine::Stdout(s));
                }
                if config.verbose {
                    push_skip_line(&mut lines, result.path.as_str(), reason);
                }
            },
        }
        proof {
            let t = results@.take(i + 1);
            assert(t.drop_last() =~= results@.take(i as int));
            assert(t.last() == results@[i as int]);
            assert(lines_view(lines@) =~= before + batch_lines_of(results@[i as int], *config));
        }
        i = i + 1;
    }
    assert(results@.take(n as int) =~= results@);
    Report { lines, stats: Stats { checked: n, printed, skipped, ignored } }
}

/// A count never exceeds the number of results.
pub proof fn lemma_count_bounded(rs: Seq<FileResult>, p: spec_fn(FileResult) -> bool)
    ensures
        count_where(rs, p) <= rs.len(),
    decreases rs.len(),
{
    if rs.len() > 0 {
        lemma_count_bounded(rs.drop_last(), p);
    }
}

/// The statistics line: `checked: N, printed: N, skipped: N, ignored: N`.
pub open spec fn stats_text(stats: Stats) -> Seq<char> {
    "checked: "@ + decimal(stats.checked as nat) + ", printed: "@ + decimal(stats.printed as nat)
        + ", skipped: "@ + decimal(stats.skipped as nat) + ", ignored: "@ + decimal(
        stats.ignored as nat,
    )
}

/// The statistics line printed on standard error in verbose mode.
pub fn stats_line(stats: &Stats) -> (r: String)
    ensures
        r@ == stats_text(*stats),
{
    let mut s = to_owned_string("checked: ");
    push_decimal(&mut s, stats.checked);
    append_str(&mut s, ", printed: ");
    push_decimal(&mut s, stats.printed);
    append_str(&mut s, ", skipped: ");
    push_decimal(&mut s, stats.skipped);
    append_str(&mut s, ", ignored: ");
    push_decimal(&mut s, stats.ignored);
    s
}

/// Without quiet mode, batch mode accounts for every result: each is printed, skipped or
/// ignored.
pub proof fn lemma_batch_counts_partition(rs: Seq<FileResult>, config: OutputConfig)
    requires
        !config.quiet,
    ensures
        batch_stats(rs, config).0 + batch_stats(rs, config).1 + batch_stats(rs, config).2 == rs.len(),
    decreases rs.len(),
{
    if rs.len() > 0 {
        lemma_batch_counts_partition(rs.drop_last(), config);
    }
}

/// Quiet mode prints nothing on standard output.
pub proof fn lemma_quiet_prints_no_stdout(rs: Seq<FileResult>, config: OutputConfig)
    requires
        config.quiet,
    ensures
        forall|i: int| 0 <= i < batch_lines(rs, config).len() ==> #[trigger] batch_lines(rs, config)[i] is ToStderr,
        !(single_output(rs, config).0.len() > 0 && single_output(rs, config).0[0] is ToStdout),
    decreases rs.len(),
{
    if rs.len() > 0 {
        lemma_quiet_prints_no_stdout(rs.drop_last(), config);
        let head = batch_lines(rs.drop_last(), config);
        let tail = batch_lines_of(rs.last(), config);
        assert(batch_lines(rs, config) == head + tail);
        assert forall|i: int| 0 <= i < batch_lines(rs, config).len() implies #[trigger] batch_lines(rs, config)[i] is ToStderr by {
            if i >= head.len() {
                assert(batch_lines(rs, config)[i] == tail[i - head.len()]);
            } else {
                assert(batch_lines(rs, config)[i] == head[i]);
            }
        }
    }
}


/// Number of standard-output lines among `ls`.
pub open spec fn stdout_count(ls: Seq<Line>) -> nat
    decreases ls.len(),
{
    if ls.len() == 0 {
        0
    } else {
        stdout_count(ls.drop_last()) + if ls.last() is ToStdout {
            1nat
        } else {
            0nat
        }
    }
}

proof fn lemma_stdout_count_concat(a: Seq<Line>, b: Seq<Line>)
    ensures
        stdout_count(a + b) == stdout_count(a) + stdout_count(b),
    decreases b.len(),
{
    if b.len() > 0 {
        lemma_stdout_count_concat(a, b.drop_last());
        assert((a + b).drop_last() =~= a + b.drop_last());
    }
}

/// A result whose encoding equals the ignored encoding up to ASCII case prints nothing and
/// is counted as ignored: adding it to the results leaves the batch lines and the printed
/// count unchanged, and in single-file mode it produces no line.
pub proof fn lemma_ignored_result_prints_nothing(
    rs: Seq<FileResult>,
    r: FileResult,
    config: OutputConfig,
)
    requires
        r.detection matches Detection::Encoded(e) && config.ignore_encoding matches Some(i)
            && ascii_lower(i@) == ascii_lower(e@),
    ensures
        batch_lines(rs.push(r), config) == batch_lines(rs, config),
        batch_stats(rs.push(r), config).0 == batch_stats(rs, config).0,
        batch_stats(rs.push(r), config).1 == batch_stats(rs, config).1,
        batch_stats(rs.push(r), config).2 == batch_stats(rs, config).2 + 1,
        single_output(seq![r], config).0.len() == 0,
{
    assert(rs.push(r).drop_last() =~= rs);
    assert(batch_lines(rs.push(r), config) =~= batch_lines(rs, config));
}

/// Outside quiet mode, batch mode writes one standard-output line per printed encoding and
/// one per skipped file, and no other.
pub proof fn lemma_stdout_lines_counted(rs: Seq<FileResult>, config: OutputConfig)
    requires
        !config.quiet,
    ensures
        stdout_count(batch_lines(rs, config)) == batch_stats(rs, config).0 + batch_stats(rs, config).1,
    decreases rs.len(),
{
    if rs.len() > 0 {
        lemma_stdout_lines_counted(rs.drop_last(), config);
        let tail = batch_lines_of(rs.last(), config);
        lemma_stdout_count_concat(batch_lines(rs.drop_last(), config), tail);
        let r = rs.last();
        assert(count_where(rs, |x: FileResult| is_shown_encoding(x, config)) == count_where(rs.drop_last(), |x: FileResult| is_shown_encoding(x, config)) + if is_shown_encoding(r, config) { 1nat } else { 0nat });
        assert(count_where(rs, |x: FileResult| x.detection is Skip) == count_where(rs.drop_last(), |x: FileResult| x.detection is Skip) + if r.detection is Skip { 1nat } else { 0nat });
        match r.detection {
            Detection::Encoded(e) => {
                if !spec_should_ignore(ignore_view(config), e@) {
                    let l = Line::ToStdout("["@ + ascii_upper(e@) + "] "@ + r.path@);
                    assert(tail =~= seq![l]);
                    assert(seq![l].drop_last() =~= Seq::<Line>::empty());
                    assert(stdout_count(Seq::<Line>::empty()) == 0);
                    assert(seq![l].last() is ToStdout);
                    assert(stdout_count(seq![l]) == 1);
                    assert(stdout_count(tail) == 1);
                } else {
                    assert(tail =~= Seq::<Line>::empty());
                }
            },
            Detection::Skip(reason) => {
                let l = Line::ToStdout("[SKIP] "@ + r.path@);
                if config.verbose {
                    let t = seq![l, skip_line(r.path@, reason)];
                    assert(tail =~= t);
                    assert(t.drop_last() =~= seq![l]);
                    assert(seq![l].drop_last() =~= Seq::<Line>::empty());
                    assert(stdout_count(Seq::<Line>::empty()) == 0);
                    assert(seq![l].last() is ToStdout);
                    assert(stdout_count(seq![l]) == 1);
                    assert(stdout_count(tail) == 1);
                } else {
                    assert(tail =~= seq![l]);
                    assert(seq![l].drop_last() =~= Seq::<Line>::empty());
                    assert(stdout_count(Seq::<Line>::empty()) == 0);
                    assert(seq![l].last() is ToStdout);
                    assert(stdout_count(seq![l]) == 1);
                    assert(stdout_count(tail) == 1);
                }
            },
        }
    }
}

} // verus!
