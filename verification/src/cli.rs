//! The command line, as plain data, and what its `check` options mean.

use vstd::prelude::*;

use crate::color::ColorWhen;
use crate::text::to_owned_string;

verus! {

/// Directory names skipped by recursive scans unless `--no-default-excludes` is given.
pub const DEFAULT_EXCLUDES: [&'static str; 3] = [".git", "node_modules", "target"];

/// The parsed command line.
#[derive(Debug)]
pub struct Cli {
    /// When to colorize encoding labels in batch output.
    pub color: ColorWhen,
    /// The subcommand, if one was given.
    pub command: Option<Commands>,
}

/// The subcommands.
#[derive(Debug)]
pub enum Commands {
    /// Detect file encoding(s).
    Check(CheckArgs),
    /// Convert a file between supported encodings.
    Convert(ConvertArgs),
    /// List valid encoding names, one per line.
    Encodings,
    /// Print a shell completion script.
    Complete(CompleteArgs),
}

/// Options of `check`.
#[derive(Debug, Clone)]
pub struct CheckArgs {
    /// Files to check.
    pub files: Vec<String>,
    /// Directories to scan.
    pub dirs: Vec<String>,
    /// Scan into subdirectories.
    pub recursive: bool,
    /// Glob pattern that file names must match.
    pub pattern: Option<String>,
    /// Encoding whose files are counted as ignored and not printed.
    pub ignore_encoding: Option<String>,
    /// Additional directory names to exclude.
    pub excludes: Vec<String>,
    /// Do not exclude `.git`, `node_modules` and `target`.
    pub no_default_excludes: bool,
    /// Number of parallel jobs.
    pub jobs: Option<usize>,
    /// Print statistics and skip reasons on standard error.
    pub verbose: bool,
    /// Print nothing on standard output.
    pub quiet: bool,
}

/// Options of `convert`.
#[derive(Debug, Clone)]
pub struct ConvertArgs {
    /// The file to convert.
    pub file: String,
    /// Its encoding.
    pub from: String,
    /// The encoding to convert to.
    pub to: String,
    /// Where to write the result (standard output when absent).
    pub output: Option<String>,
    /// Fail on malformed input or unmappable characters.
    pub strict: bool,
    /// Write a byte order mark (UTF-8 and UTF-16 targets).
    pub bom: bool,
    /// Overwrite an existing output file.
    pub force: bool,
}

/// Options of `complete`.
#[derive(Debug, Clone)]
pub struct CompleteArgs {
    /// The shell to complete for (`bash`, `zsh`, `fish`, `elvish` or `powershell`).
    pub shell: String,
}

/// The characters of each string in a list.
pub open spec fn string_views(v: Seq<String>) -> Seq<Seq<char>> {
    v.map_values(|s: String| s@)
}

/// The default excluded directory names, as characters.
pub open spec fn default_exclude_names() -> Seq<Seq<char>> {
    DEFAULT_EXCLUDES@.map_values(|s: &'static str| s@)
}

/// The characters of `.`.
pub open spec fn current_dir_name() -> Seq<char> {
    "."@
}

/// Copies of the strings of a list.
fn copy_strings(v: &Vec<String>) -> (r: Vec<String>)
    ensures
        string_views(r@) == string_views(v@),
{
    let mut r: Vec<String> = Vec::new();
    let mut i: usize = 0;
    while i < v.len()
        invariant
            i <= v@.len(),
            string_views(r@) == string_views(v@.take(i as int)),
        decreases v@.len() - i,
    {
        let ghost before = string_views(r@);
        let s = to_owned_string(v[i].as_str());
        r.push(s);
        assert(string_views(r@) =~= before.push(v@[i as int]@));
        assert(v@.take(i + 1) =~= v@.take(i as int).push(v@[i as int]));
        i = i + 1;
        assert(string_views(r@) =~= string_views(v@.take(i as int)));
    }
    assert(v@.take(v@.len() as int) =~= v@);
    r
}

impl CheckArgs {
    /// The directory names to exclude: the defaults (unless disabled), then the extra ones.
    pub fn effective_excludes(&self) -> (r: Vec<String>)
        ensures
            string_views(r@) == (if self.no_default_excludes {
                Seq::<Seq<char>>::empty()
            } else {
                default_exclude_names()
            }) + string_views(self.excludes@),
    {
        let mut excludes: Vec<String> = Vec::new();
        if !self.no_default_excludes {
            let mut i: usize = 0;
            while i < DEFAULT_EXCLUDES.len()
                invariant
                    i <= DEFAULT_EXCLUDES@.len(),
                    string_views(excludes@) == default_exclude_names().take(i as int),
                decreases DEFAULT_EXCLUDES@.len() - i,
            {
                let ghost before = string_views(excludes@);
                let s = to_owned_string(DEFAULT_EXCLUDES[i]);
                excludes.push(s);
                assert(string_views(excludes@) =~= before.push(DEFAULT_EXCLUDES@[i as int]@));
                i = i + 1;
                assert(string_views(excludes@) =~= default_exclude_names().take(i as int));
            }
            assert(default_exclude_names().take(3) =~= default_exclude_names());
        }
        let ghost head = string_views(excludes@);
        let extra = copy_strings(&self.excludes);
        let mut j: usize = 0;
        while j < extra.len()
            invariant
                j <= extra@.len(),
                string_views(excludes@) == head + string_views(extra@).take(j as int),
            decreases extra@.len() - j,
        {
            let ghost before = string_views(excludes@);
            let s = to_owned_string(extra[j].as_str());
            excludes.push(s);
            assert(string_views(excludes@) =~= before.push(extra@[j as int]@));
            j = j + 1;
            assert(string_views(excludes@) =~= head + string_views(extra@).take(j as int));
        }
        assert(string_views(extra@).take(extra@.len() as int) =~= string_views(extra@));
        assert(head =~= (if self.no_default_excludes {
            Seq::<Seq<char>>::empty()
        } else {
            default_exclude_names()
        }));
        excludes
    }

    /// Glob pattern for file filtering; `*` when `-p` is omitted.
    pub fn effective_pattern(&self) -> (r: &str)
        ensures
            r@ == match self.pattern {
                Some(p) => p@,
                None => "*"@,
            },
    {
        match &self.pattern {
            Some(p) => p.as_str(),
            None => "*",
        }
    }

    /// Scan roots: the given directories, or `.` when `-r` or `-p` is used without `-d`
    /// and without `-f`.
    pub fn effective_dirs(&self) -> (r: Vec<String>)
        ensures
            string_views(r@) == (if self.dirs@.len() > 0 {
                string_views(self.dirs@)
            } else if self.files@.len() == 0 && (self.recursive || self.pattern is Some) {
                seq![current_dir_name()]
            } else {
                Seq::<Seq<char>>::empty()
            }),
    {
        if self.dirs.len() > 0 {
            return copy_strings(&self.dirs);
        }
        if self.files.len() == 0 && (self.recursive || self.pattern.is_some()) {
            let mut r: Vec<String> = Vec::new();
            r.push(to_owned_string("."));
            assert(string_views(r@) =~= seq![current_dir_name()]);
            r
        } else {
            let r: Vec<String> = Vec::new();
            assert(string_views(r@) =~= Seq::<Seq<char>>::empty());
            r
        }
    }

    /// Exactly one file and no directory: the bare encoding name is printed.
    pub fn is_single_file_mode(&self) -> (r: bool)
        ensures
            r == (self.files@.len() == 1 && self.dirs@.len() == 0),
    {
        if self.files.len() != 1 {
            return false;
        }
        let dirs = self.effective_dirs();
        assert(dirs@.len() == string_views(dirs@).len());
        dirs.len() == 0
    }
}

} // verus!
