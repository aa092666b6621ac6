//! Which files a `check` run looks at: glob patterns, scan roots and the decisions taken
//! for each root, excluded directories, and the final order of the collected paths.

use vstd::prelude::*;

use globset::{Glob, GlobSet, GlobSetBuilder};

use crate::cli::{string_views, CheckArgs};
use crate::error::EcdError;
use crate::pathorder::{components, path_components, split_slash, Comp, PathComp};
use crate::text::{
    append_str, contains_char, has_prefix, push_char, starts_with, str_eq, to_owned_string,
};

verus! {

/// `s` with every leading repetition of `p` removed.
pub open spec fn strip_leading(s: Seq<char>, p: Seq<char>) -> Seq<char>
    decreases s.len(),
{
    if p.len() > 0 && has_prefix(s, p) {
        strip_leading(s.skip(p.len() as int), p)
    } else {
        s
    }
}

/// The pattern used for a scan: recursive scans match at any depth (`**/` is put in front
/// of a pattern that has no `/` and does not start with `**`); shallow scans drop leading
/// `**/`.
pub open spec fn spec_effective_pattern(pattern: Seq<char>, recursive: bool) -> Seq<char> {
    if recursive {
        if pattern.contains('/') || has_prefix(pattern, "**"@) {
            pattern
        } else {
            "**/"@ + pattern
        }
    } else {
        strip_leading(pattern, "**/"@)
    }
}

/// Expands a user pattern for recursive or shallow directory scans.
pub fn effective_pattern(pattern: &str, recursive: bool) -> (r: String)
    ensures
        r@ == spec_effective_pattern(pattern@, recursive),
{
    if recursive {
        if contains_char(pattern, '/') || starts_with(pattern, "**") {
            to_owned_string(pattern)
        } else {
            let mut r = to_owned_string("**/");
            append_str(&mut r, pattern);
            r
        }
    } else {
        proof {
            reveal_strlit("**/");
            assert("**/"@ =~= seq!['*', '*', '/']);
        }
        let mut rest: &str = pattern;
        while starts_with(rest, "**/")
            invariant
                strip_leading(rest@, "**/"@) == strip_leading(pattern@, "**/"@),
                "**/"@ == seq!['*', '*', '/'],
            decreases rest@.len(),
        {
            let n = rest.unicode_len();
            let next = rest.substring_char(3, n);
            assert(next@ =~= rest@.skip(3));
            rest = next;
        }
        to_owned_string(rest)
    }
}

#[verifier::external_type_specification]
#[verifier::external_body]
pub struct ExGlobSet(GlobSet);

/// The glob pattern `pattern` is accepted by `globset` (by `Glob::new` and by
/// `GlobSetBuilder::build` for a set holding that one glob).
pub uninterp spec fn glob_valid(pattern: Seq<char>) -> bool;

/// A `globset` set built from the one glob `pattern` matches the path `candidate`.
pub uninterp spec fn glob_matches(pattern: Seq<char>, candidate: Seq<char>) -> bool;

/// Why a glob pattern could not be used.
#[derive(Debug, Clone)]
pub enum GlobError {
    /// `Glob::new` refused the pattern; holds the error message.
    Invalid(String),
    /// The set holding the glob could not be built; holds the error message.
    Compile(String),
}

impl GlobError {
    /// The human-readable message of this error.
    pub fn message(&self) -> (r: String)
        ensures
            r@ == (match self {
                GlobError::Invalid(m) => "invalid glob pattern: "@ + m@,
                GlobError::Compile(m) => "failed to compile glob pattern: "@ + m@,
            }),
    {
        match self {
            GlobError::Invalid(m) => {
                let mut r = to_owned_string("invalid glob pattern: ");
                append_str(&mut r, m.as_str());
                r
            },
            GlobError::Compile(m) => {
                let mut r = to_owned_string("failed to compile glob pattern: ");
                append_str(&mut r, m.as_str());
                r
            },
        }
    }
}

/// A compiled glob pattern, together with the pattern it was compiled from.
pub struct GlobFilter {
    set: GlobSet,
    pattern: String,
}

impl GlobFilter {
    /// The pattern this filter was compiled from.
    pub closed spec fn pattern(&self) -> Seq<char> {
        self.pattern@
    }
}

/// Compiles `pattern` into a one-glob `globset::GlobSet` (`Glob::new`, then
/// `GlobSetBuilder::add` and `GlobSetBuilder::build`).
///
/// Trusted: it succeeds exactly when `glob_valid` holds of the pattern, and the filter keeps
/// the pattern it was compiled from. Which of the two steps refused an invalid pattern is
/// not stated.
#[verifier::external_body]
fn compile_glob(pattern: &str) -> (r: Result<GlobFilter, GlobError>)
    ensures
        r is Ok == glob_valid(pattern@),
        r matches Ok(f) ==> f.pattern() == pattern@,
{
    let glob = match Glob::new(pattern) {
        Ok(g) => g,
        Err(e) => return Err(GlobError::Invalid(e.to_string())),
    };
    let mut builder = GlobSetBuilder::new();
    builder.add(glob);
    match builder.build() {
        Ok(set) => Ok(GlobFilter { set, pattern: pattern.to_string() }),
        Err(e) => Err(GlobError::Compile(e.to_string())),
    }
}

/// `GlobSet::is_match` on the filter's set.
///
/// Trusted: the answer is `glob_matches` of the filter's pattern and the candidate.
#[verifier::external_body]
fn glob_set_matches(filter: &GlobFilter, candidate: &str) -> (r: bool)
    ensures
        r == glob_matches(filter.pattern(), candidate@),
{
    filter.set.is_match(candidate)
}

/// Compiles the pattern of a scan (see [`effective_pattern`]).
pub fn scan_filter(pattern: &str, recursive: bool) -> (r: Result<GlobFilter, GlobError>)
    ensures
        r is Ok == glob_valid(spec_effective_pattern(pattern@, recursive)),
        r matches Ok(f) ==> f.pattern() == spec_effective_pattern(pattern@, recursive),
{
    let effective = effective_pattern(pattern, recursive);
    compile_glob(effective.as_str())
}

/// The file name of a path: its last component when that is a name, else empty (as
/// `Path::file_name`, with an absent name taken as empty).
pub open spec fn spec_file_name(path: Seq<char>) -> Seq<char> {
    let cs = components(path);
    if cs.len() > 0 {
        match cs.last() {
            Comp::Normal(n) => n,
            _ => Seq::<char>::empty(),
        }
    } else {
        Seq::<char>::empty()
    }
}

/// The file name of a path (empty when the path ends in no name).
pub fn file_name(path: &str) -> (r: String)
    ensures
        r@ == spec_file_name(path@),
{
    let comps = path_components(path);
    let n = comps.len();
    let mut r = String::new();
    if n == 0 {
        return r;
    }
    assert(crate::pathorder::comp_view(comps@[n - 1]) == components(path@).last());
    match &comps[n - 1] {
        PathComp::Normal(chars) => {
            let mut i: usize = 0;
            while i < chars.len()
                invariant
                    i <= chars@.len(),
                    r@ == chars@.take(i as int),
                decreases chars@.len() - i,
            {
                push_char(&mut r, chars[i]);
                assert(chars@.take(i + 1) =~= chars@.take(i as int).push(chars@[i as int]));
                i = i + 1;
            }
            assert(chars@.take(chars@.len() as int) =~= chars@);
            r
        },
        _ => r,
    }
}

proof fn lemma_split_nonempty(p: Seq<char>)
    ensures
        split_slash(p).len() >= 1,
    decreases p.len(),
{
    if p.len() > 0 {
        lemma_split_nonempty(p.drop_last());
    }
}

proof fn lemma_split_after_slash(q: Seq<char>, n: Seq<char>)
    requires
        !n.contains('/'),
    ensures
        split_slash(q + seq!['/'] + n).len() >= 2,
        split_slash(q + seq!['/'] + n).last() == n,
    decreases n.len(),
{
    if n.len() == 0 {
        assert(q + seq!['/'] + n =~= q.push('/'));
        assert(q.push('/').drop_last() =~= q);
        lemma_split_nonempty(q);
        assert(n =~= Seq::<char>::empty());
    } else {
        let m = n.drop_last();
        assert(!m.contains('/')) by {
            if m.contains('/') {
                let j = choose|j: int| 0 <= j < m.len() && m[j] == '/';
                assert(n[j] == '/');
            }
        }
        lemma_split_after_slash(q, m);
        assert((q + seq!['/'] + n).drop_last() =~= q + seq!['/'] + m);
        assert((q + seq!['/'] + n).last() == n.last());
        assert(n.last() != '/') by {
            assert(n[n.len() - 1] == n.last());
        }
        assert(m.push(n.last()) =~= n);
    }
}

proof fn lemma_split_without_slash(n: Seq<char>)
    requires
        !n.contains('/'),
    ensures
        split_slash(n) == seq![n],
    decreases n.len(),
{
    if n.len() == 0 {
        assert(n =~= Seq::<char>::empty());
    } else {
        let m = n.drop_last();
        assert(!m.contains('/')) by {
            if m.contains('/') {
                let j = choose|j: int| 0 <= j < m.len() && m[j] == '/';
                assert(n[j] == '/');
            }
        }
        lemma_split_without_slash(m);
        assert(n.last() != '/') by {
            assert(n[n.len() - 1] == n.last());
        }
        assert(m.push(n.last()) =~= n);
        assert(split_slash(n) =~= seq![n]);
    }
}

/// The file name of a path is the name after its last `/` (or the whole path when it has
/// none), provided that name is neither empty, `.` nor `..`.
pub proof fn lemma_file_name_after_last_slash(dir: Seq<char>, name: Seq<char>)
    requires
        name.len() > 0,
        !name.contains('/'),
        name != seq!['.'],
        name != seq!['.', '.'],
    ensures
        spec_file_name(dir + seq!['/'] + name) == name,
        spec_file_name(name) == name,
{
    lemma_split_after_slash(dir, name);
    lemma_split_without_slash(name);
    let p = dir + seq!['/'] + name;
    let ps = split_slash(p);
    let cs = components(p);
    assert(cs == crate::pathorder::comps_prefix(ps.drop_last()) + seq![Comp::Normal(name)]);
    assert(cs.last() == Comp::Normal(name));
    assert(components(name) == seq![Comp::Normal(name)]);
}

/// A path is taken by a scan when the pattern matches the whole path or its file name.
pub open spec fn spec_path_matches(pattern: Seq<char>, path: Seq<char>) -> bool {
    glob_matches(pattern, path) || glob_matches(pattern, spec_file_name(path))
}

/// A scan takes a path exactly when the pattern matches the whole path or the path's file
/// name; in particular a path is taken whenever its file name matches.
pub proof fn lemma_path_matches_whole_or_name(pattern: Seq<char>, path: Seq<char>)
    ensures
        glob_matches(pattern, spec_file_name(path)) ==> spec_path_matches(pattern, path),
        glob_matches(pattern, path) ==> spec_path_matches(pattern, path),
        !glob_matches(pattern, path) && !glob_matches(pattern, spec_file_name(path))
            ==> !spec_path_matches(pattern, path),
{
}

/// Whether a scan takes `path`: the filter matches the path or its file name.
pub fn path_matches(filter: &GlobFilter, path: &str) -> (r: bool)
    ensures
        r == spec_path_matches(filter.pattern(), path@),
        r == (glob_matches(filter.pattern(), path@) || glob_matches(
            filter.pattern(),
            spec_file_name(path@),
        )),
{
    proof {
        lemma_path_matches_whole_or_name(filter.pattern(), path@);
    }
    if glob_set_matches(filter, path) {
        return true;
    }
    let name = file_name(path);
    glob_set_matches(filter, name.as_str())
}

/// A path given on the command line: a file (`-f`) or a directory (`-d`).
#[derive(Debug, Clone)]
pub enum ScanRoot {
    /// A path given with `-f`.
    File(String),
    /// A path given with `-d` (or the implied `.`).
    Dir(String),
}

/// The path of a root, as characters.
pub open spec fn root_path(r: ScanRoot) -> Seq<char> {
    match r {
        ScanRoot::File(p) => p@,
        ScanRoot::Dir(p) => p@,
    }
}

/// The roots of a scan, over plain values: the files, then the effective directories.
pub open spec fn spec_roots(files: Seq<Seq<char>>, dirs: Seq<Seq<char>>, roots: Seq<ScanRoot>) -> bool {
    &&& roots.len() == files.len() + dirs.len()
    &&& forall|i: int| 0 <= i < files.len() ==> (#[trigger] roots[i] matches ScanRoot::File(p) && p@ == files[i])
    &&& forall|i: int| 0 <= i < dirs.len() ==> (#[trigger] roots[files.len() + i] matches ScanRoot::Dir(p) && p@ == dirs[i])
}

/// The roots to scan, in order: every file, then every effective directory. With neither
/// a file nor a directory there is nothing to check.
pub fn scan_roots(args: &CheckArgs) -> (r: Result<Vec<ScanRoot>, EcdError>)
    ensures
        ({
            let dirs = if args.dirs@.len() > 0 {
                string_views(args.dirs@)
            } else if args.files@.len() == 0 && (args.recursive || args.pattern is Some) {
                seq![crate::cli::current_dir_name()]
            } else {
                Seq::<Seq<char>>::empty()
            };
            &&& (args.files@.len() == 0 && dirs.len() == 0 ==> r matches Err(EcdError::NoInput))
            &&& (args.files@.len() > 0 || dirs.len() > 0 ==> (r matches Ok(roots) && spec_roots(
                string_views(args.files@),
                dirs,
                roots@,
            )))
        }),
{
    let dirs = args.effective_dirs();
    if args.files.len() == 0 && dirs.len() == 0 {
        assert(string_views(dirs@).len() == dirs@.len());
        return Err(EcdError::NoInput);
    }
    let mut roots: Vec<ScanRoot> = Vec::new();
    let mut i: usize = 0;
    while i < args.files.len()
        invariant
            i <= args.files@.len(),
            roots@.len() == i,
            forall|k: int| 0 <= k < i ==> (#[trigger] roots@[k] matches ScanRoot::File(p) && p@
                == args.files@[k]@),
        decreases args.files@.len() - i,
    {
        roots.push(ScanRoot::File(to_owned_string(args.files[i].as_str())));
        i = i + 1;
    }
    let nf = i;
    let mut j: usize = 0;
    while j < dirs.len()
        invariant
            nf == args.files@.len(),
            j <= dirs@.len(),
            roots@.len() == nf + j,
            forall|k: int| 0 <= k < nf ==> (#[trigger] roots@[k] matches ScanRoot::File(p) && p@
                == args.files@[k]@),
            forall|k: int| 0 <= k < j ==> (#[trigger] roots@[nf + k] matches ScanRoot::Dir(p) && p@
                == dirs@[k]@),
        decreases dirs@.len() - j,
    {
        roots.push(ScanRoot::Dir(to_owned_string(dirs[j].as_str())));
        j = j + 1;
    }
    proof {
        assert forall|k: int| 0 <= k < dirs@.len() implies #[trigger] string_views(dirs@)[k] == dirs@[k]@ by {}
    }
    Ok(roots)
}

/// What exists at a root's path.
#[derive(Debug, Clone, Copy, PartialEq, Eq)]
pub enum RootKind {
    /// Nothing.
    Missing,
    /// A file.
    File,
    /// Something else, such as a directory.
    Other,
}

/// What to do with a root.
#[derive(Debug)]
pub enum RootAction {
    /// Stop with this error.
    Fail(EcdError),
    /// Add the path itself when it matches the pattern.
    AddIfMatches,
    /// Walk the directory and add the matching files in it.
    Walk,
    /// Nothing: the path is given as a file but is not one.
    Skip,
}

/// The action for a root: a missing path is an error, a file is added when it matches the
/// pattern, a directory given with `-d` is walked, and anything else given with `-f` is
/// passed over.
pub fn root_action(root: &ScanRoot, kind: RootKind) -> (r: RootAction)
    ensures
        kind == RootKind::Missing ==> (r matches RootAction::Fail(EcdError::NotFound(p)) && p@
            == root_path(*root)),
        kind == RootKind::File ==> r is AddIfMatches,
        kind == RootKind::Other ==> (if root is Dir {
            r is Walk
        } else {
            r is Skip
        }),
{
    let path = match root {
        ScanRoot::File(p) => p,
        ScanRoot::Dir(p) => p,
    };
    match kind {
        RootKind::Missing => RootAction::Fail(EcdError::NotFound(to_owned_string(path.as_str()))),
        RootKind::File => RootAction::AddIfMatches,
        RootKind::Other => match root {
            ScanRoot::Dir(_) => RootAction::Walk,
            ScanRoot::File(_) => RootAction::Skip,
        },
    }
}

/// A walked entry is kept unless it is a directory whose name is excluded.
pub open spec fn spec_keeps_entry(is_dir: bool, name: Seq<char>, excludes: Seq<Seq<char>>) -> bool {
    !(is_dir && excludes.contains(name))
}

/// An entry is dropped exactly when it is a directory whose name equals one of the
/// excluded names: files are always kept, and so is every directory whose name differs from
/// each excluded name (even when an excluded name is a prefix of it).
pub proof fn lemma_keeps_unless_excluded_exactly(is_dir: bool, name: Seq<char>, excludes: Seq<Seq<char>>)
    ensures
        !is_dir ==> spec_keeps_entry(is_dir, name, excludes),
        (forall|k: int| 0 <= k < excludes.len() ==> excludes[k] != name) ==> spec_keeps_entry(
            is_dir,
            name,
            excludes,
        ),
        is_dir && (exists|k: int| 0 <= k < excludes.len() && excludes[k] == name) ==> !spec_keeps_entry(
            is_dir,
            name,
            excludes,
        ),
{
}

/// Whether a recursive walk keeps (and descends into) an entry.
pub fn keeps_entry(is_dir: bool, name: &str, excludes: &Vec<String>) -> (r: bool)
    ensures
        r == spec_keeps_entry(is_dir, name@, string_views(excludes@)),
        r == !(is_dir && exists|k: int| 0 <= k < excludes@.len() && #[trigger] excludes@[k]@ == name@),
{
    if !is_dir {
        return true;
    }
    let mut i: usize = 0;
    while i < excludes.len()
        invariant
            is_dir,
            i <= excludes@.len(),
            forall|k: int| 0 <= k < i ==> excludes@[k]@ != name@,
        decreases excludes@.len() - i,
    {
        if str_eq(excludes[i].as_str(), name) {
            assert(string_views(excludes@)[i as int] == name@);
            assert(0 <= i < string_views(excludes@).len());
            assert(string_views(excludes@).contains(name@));
            assert(excludes@[i as int]@ == name@);
            return false;
        }
        i = i + 1;
    }
    assert(!(exists|k: int| 0 <= k < excludes@.len() && #[trigger] excludes@[k]@ == name@));
    assert(!string_views(excludes@).contains(name@)) by {
        if string_views(excludes@).contains(name@) {
            let k = choose|k: int| 0 <= k < string_views(excludes@).len() && string_views(excludes@)[k] == name@;
            assert(excludes@[k]@ == name@);
        }
    }
    true
}

} // verus!
