//! Benchmark executable discovery.
//!
//! The unverified driver walks the directory tree and reports each entry it
//! saw as a plain [`FileEntry`]; which entries are benchmark executables is
//! decided here: regular, executable, and named to match the configured
//! pattern. Pattern matching itself is the regex (or glob) crate's work
//! behind trusted wrappers; the selection logic around it is verified.

use vstd::prelude::*;

use crate::text::after_last_slash;

verus! {

/// One file-system entry seen during discovery, as plain values.
#[derive(Clone, Debug)]
pub struct FileEntry {
    pub path: String,
    pub is_file: bool,
    pub is_executable: bool,
}

/// The mathematical value of a [`FileEntry`].
pub ghost struct FileEntryView {
    pub path: Seq<char>,
    pub is_file: bool,
    pub is_executable: bool,
}

impl View for FileEntry {
    type V = FileEntryView;

    open spec fn view(&self) -> FileEntryView {
        FileEntryView { path: self.path@, is_file: self.is_file, is_executable: self.is_executable }
    }
}

/// The views of a list of entries.
pub open spec fn views_of_entries(s: Seq<FileEntry>) -> Seq<FileEntryView> {
    Seq::new(s.len(), |i: int| s[i]@)
}

/// The views of a list of strings.
pub open spec fn views_of_strings(s: Seq<String>) -> Seq<Seq<char>> {
    Seq::new(s.len(), |i: int| s[i]@)
}

/// Whether `pattern` is a valid regular expression. Relied on through
/// [`regex_pattern_valid`] and [`regex_is_match`].
pub uninterp spec fn regex_valid(pattern: Seq<char>) -> bool;

/// Whether the regular expression `pattern` matches anywhere in `text`.
/// The result depends on the two strings alone.
pub uninterp spec fn regex_match(pattern: Seq<char>, text: Seq<char>) -> bool;

/// Relies on `regex::Regex::new`: whether a pattern compiles depends on the
/// pattern alone.
#[verifier::external_body]
fn regex_pattern_valid(pattern: &str) -> (r: bool)
    ensures
        r == regex_valid(pattern@),
{
    regex::Regex::new(pattern).is_ok()
}

/// Relies on `regex::Regex::new` and `regex::Regex::is_match`: whether the
/// pattern matches the text depends on the two strings alone.
#[verifier::external_body]
fn regex_is_match(pattern: &str, text: &str) -> (r: Option<bool>)
    ensures
        r is Some <==> regex_valid(pattern@),
        r is Some ==> r.unwrap() == regex_match(pattern@, text@),
{
    regex::Regex::new(pattern).ok().map(|re| re.is_match(text))
}

/// Whether `pattern` is a valid glob pattern. Relied on through
/// [`glob_is_match`].
pub uninterp spec fn glob_valid(pattern: Seq<char>) -> bool;

/// Whether the glob `pattern` matches the whole of `text`. The result
/// depends on the two strings alone.
pub uninterp spec fn glob_match(pattern: Seq<char>, text: Seq<char>) -> bool;

/// Relies on `glob::Pattern::new` and `glob::Pattern::matches`: whether the
/// pattern compiles and matches the text depends on the two strings alone.
#[verifier::external_body]
fn glob_is_match(pattern: &str, text: &str) -> (r: Option<bool>)
    ensures
        r is Some <==> glob_valid(pattern@),
        r is Some ==> r.unwrap() == glob_match(pattern@, text@),
{
    glob::Pattern::new(pattern).ok().map(|p| p.matches(text))
}

/// Whether discovery keeps an entry: a regular, executable file whose file
/// name matches the pattern.
pub open spec fn keeps_entry(e: FileEntryView, pattern: Seq<char>) -> bool {
    e.is_file && e.is_executable && regex_match(pattern, after_last_slash(e.path))
}

/// The paths of the entries discovery keeps, in the order they were seen.
pub open spec fn matching_paths(entries: Seq<FileEntryView>, pattern: Seq<char>) -> Seq<Seq<char>>
    decreases entries.len(),
{
    if entries.len() == 0 {
        Seq::empty()
    } else {
        matching_paths(entries.drop_last(), pattern) + if keeps_entry(entries.last(), pattern) {
            seq![entries.last().path]
        } else {
            Seq::empty()
        }
    }
}

/// The executables to benchmark under a scanned tree: regular executable
/// files whose name matches the pattern. `None` exactly when the pattern is
/// no valid regular expression.
pub fn find_executables(entries: &Vec<FileEntry>, exe_pattern: &str) -> (r: Option<Vec<String>>)
    ensures
        r is Some <==> regex_valid(exe_pattern@),
        r is Some ==> views_of_strings(r.unwrap()@) == matching_paths(
            views_of_entries(entries@),
            exe_pattern@,
        ),
{
    if !regex_pattern_valid(exe_pattern) {
        return None;
    }
    let ghost model = views_of_entries(entries@);
    let mut out: Vec<String> = Vec::new();
    let n = entries.len();
    let mut i: usize = 0;
    proof {
        assert(model.take(0) =~= Seq::<FileEntryView>::empty());
        assert(views_of_strings(out@) =~= matching_paths(model.take(0), exe_pattern@));
    }
    while i < n
        invariant
            0 <= i <= n,
            n == entries@.len(),
            model == views_of_entries(entries@),
            regex_valid(exe_pattern@),
            views_of_strings(out@) == matching_paths(model.take(i as int), exe_pattern@),
        decreases n - i,
    {
        let entry = &entries[i];
        let ghost prev = out@;
        if entry.is_file && entry.is_executable {
            let name = crate::text::exe_name(entry.path.as_str());
            let keep = match regex_is_match(exe_pattern, name.as_str()) {
                Some(b) => b,
                None => false,
            };
            if keep {
                out.push(entry.path.clone());
            }
        }
        proof {
            assert(model.take(i + 1).drop_last() =~= model.take(i as int));
            assert(model.take(i + 1).last() == model[i as int]);
            assert(model[i as int] == entries@[i as int]@);
            if keeps_entry(model[i as int], exe_pattern@) {
                assert(views_of_strings(out@) =~= matching_paths(model.take(i as int), exe_pattern@)
                    + seq![model[i as int].path]);
            } else {
                assert(views_of_strings(out@) =~= views_of_strings(prev));
                assert(matching_paths(model.take(i + 1), exe_pattern@) =~= matching_paths(
                    model.take(i as int),
                    exe_pattern@,
                ));
            }
        }
        i += 1;
    }
    proof {
        assert(model.take(n as int) =~= model);
    }
    Some(out)
}

/// Whether the fixed benchmark glob keeps an entry: a regular, executable
/// file whose full path matches `*-benchmark*`.
pub open spec fn keeps_bench_entry(e: FileEntryView, pattern: Seq<char>) -> bool {
    e.is_file && e.is_executable && glob_match(pattern, e.path)
}

/// The paths of the entries the fixed benchmark glob keeps, in order.
pub open spec fn bench_matching_paths(entries: Seq<FileEntryView>, pattern: Seq<char>) -> Seq<
    Seq<char>,
>
    decreases entries.len(),
{
    if entries.len() == 0 {
        Seq::empty()
    } else {
        bench_matching_paths(entries.drop_last(), pattern) + if keeps_bench_entry(
            entries.last(),
            pattern,
        ) {
            seq![entries.last().path]
        } else {
            Seq::empty()
        }
    }
}

/// The executables under a scanned tree whose path matches the fixed
/// `*-benchmark*` glob. `None` exactly when that glob fails to compile,
/// which the glob crate's grammar rules out in practice.
pub fn find_executable_benchmarks(entries: &Vec<FileEntry>) -> (r: Option<Vec<String>>)
    ensures
        r is Some <==> glob_valid("*-benchmark*"@),
        r is Some ==> views_of_strings(r.unwrap()@) == bench_matching_paths(
            views_of_entries(entries@),
            "*-benchmark*"@,
        ),
{
    let pattern = "*-benchmark*";
    match glob_is_match(pattern, "") {
        None => {
            return None;
        },
        Some(_) => {},
    }
    let ghost model = views_of_entries(entries@);
    let mut out: Vec<String> = Vec::new();
    let n = entries.len();
    let mut i: usize = 0;
    proof {
        assert(model.take(0) =~= Seq::<FileEntryView>::empty());
        assert(views_of_strings(out@) =~= bench_matching_paths(model.take(0), pattern@));
    }
    while i < n
        invariant
            0 <= i <= n,
            n == entries@.len(),
            model == views_of_entries(entries@),
            glob_valid(pattern@),
            pattern@ == "*-benchmark*"@,
            views_of_strings(out@) == bench_matching_paths(model.take(i as int), pattern@),
        decreases n - i,
    {
        let entry = &entries[i];
        let ghost prev = out@;
        if entry.is_file && entry.is_executable {
            let keep = match glob_is_match(pattern, entry.path.as_str()) {
                Some(b) => b,
                None => false,
            };
            if keep {
                out.push(entry.path.clone());
            }
        }
        proof {
            assert(model.take(i + 1).drop_last() =~= model.take(i as int));
            assert(model.take(i + 1).last() == model[i as int]);
            assert(model[i as int] == entries@[i as int]@);
            if keeps_bench_entry(model[i as int], pattern@) {
                assert(views_of_strings(out@) =~= bench_matching_paths(
                    model.take(i as int),
                    pattern@,
                ) + seq![model[i as int].path]);
            } else {
                assert(views_of_strings(out@) =~= views_of_strings(prev));
                assert(bench_matching_paths(model.take(i + 1), pattern@) =~= bench_matching_paths(
                    model.take(i as int),
                    pattern@,
                ));
            }
        }
        i += 1;
    }
    proof {
        assert(model.take(n as int) =~= model);
    }
    Some(out)
}

} // verus!
