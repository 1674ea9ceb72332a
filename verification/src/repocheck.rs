//! The repocheck run: settings, commit identifiers, export naming, and the
//! orchestration state machine that walks a commit range.
//!
//! The machine owns every decision of the walk — what to check out, what to
//! build, what to run, what to export, and when to stop — while the
//! unverified driver only performs the requested repository, process and
//! file work and reports each outcome back as a plain event.

use vstd::prelude::*;
use vstd::string::*;

use crate::text::after_last_slash;

verus! {

/// The settings of one repocheck run, as loaded from the settings file.
#[derive(Clone, PartialEq, Debug)]
pub struct RepocheckSettings {
    pub version: u32,
    pub repo_path: String,
    pub branch_name: String,
    pub from_commit: String,
    pub to_commit: String,
    pub build_commands: String,
    pub benchmark_regex: String,
}

/// One resolved commit: its object id and its position in the walk order.
#[derive(Clone, Debug)]
pub struct CommitRef {
    pub id: Vec<u8>,
    pub position: usize,
}

/// Why a repocheck run stops before completing the walk.
#[derive(Clone, Copy, PartialEq, Eq, Structural, Debug)]
pub enum RepocheckError {
    /// The repository path is invalid or holds no repository.
    RepositoryOpenFailure,
    /// The repository has an operation in progress and must be cleaned up
    /// first.
    DirtyRepository,
    /// The configured branch could not be checked out.
    BranchCheckoutFailure,
    /// `from_commit` or `to_commit` names no commit of the repository.
    UnknownRevision,
    /// `from_commit` is a root commit, or `to_commit` does not descend from
    /// it along the first-parent line.
    InvalidRange,
    /// A commit's tree could not be checked out over the working tree.
    CheckoutConflict,
    /// A build command could not be run or exited with a non-zero status.
    BuildFailure,
    /// A benchmark executable could not be run or exited with a non-zero
    /// status.
    ExecutionFailure,
    /// A benchmark executable produced no valid output document.
    MalformedOutput,
    /// A benchmark executable reported an unsupported time unit.
    UnsupportedTimeUnit,
    /// The configured benchmark name pattern is no valid regular expression.
    InvalidPattern,
    /// A per-commit export file could not be written.
    ExportFailure,
}

/// The hexadecimal digit for a value below sixteen.
pub open spec fn hex_digit(n: int) -> char {
    "0123456789abcdef"@[n]
}

/// The lowercase hexadecimal encoding of an object id, two digits per byte.
pub open spec fn hex_of(bytes: Seq<u8>) -> Seq<char>
    decreases bytes.len(),
{
    if bytes.len() == 0 {
        Seq::empty()
    } else {
        hex_of(bytes.drop_last()) + seq![
            hex_digit(bytes.last() as int / 16),
            hex_digit(bytes.last() as int % 16),
        ]
    }
}

fn hex_digit_str(n: u8) -> (r: &'static str)
    requires
        n < 16,
    ensures
        r@ =~= seq![hex_digit(n as int)],
{
    proof {
        reveal_strlit("0123456789abcdef");
        reveal_strlit("0");
        reveal_strlit("1");
        reveal_strlit("2");
        reveal_strlit("3");
        reveal_strlit("4");
        reveal_strlit("5");
        reveal_strlit("6");
        reveal_strlit("7");
        reveal_strlit("8");
        reveal_strlit("9");
        reveal_strlit("a");
        reveal_strlit("b");
        reveal_strlit("c");
        reveal_strlit("d");
        reveal_strlit("e");
        reveal_strlit("f");
    }
    match n {
        0 => "0",
        1 => "1",
        2 => "2",
        3 => "3",
        4 => "4",
        5 => "5",
        6 => "6",
        7 => "7",
        8 => "8",
        9 => "9",
        10 => "a",
        11 => "b",
        12 => "c",
        13 => "d",
        14 => "e",
        _ => "f",
    }
}

/// Writes an object id as its full lowercase hexadecimal string.
pub fn id_to_str(oid: &[u8]) -> (r: String)
    ensures
        r@ == hex_of(oid@),
{
    let n = oid.len();
    let mut r = String::new();
    proof {
        assert(hex_of(oid@.take(0)) =~= Seq::<char>::empty());
    }
    let mut i: usize = 0;
    while i < n
        invariant
            0 <= i <= n,
            n == oid@.len(),
            r@ == hex_of(oid@.take(i as int)),
        decreases n - i,
    {
        let b = oid[i];
        r.append(hex_digit_str(b / 16));
        r.append(hex_digit_str(b % 16));
        proof {
            assert(oid@.take(i + 1).drop_last() =~= oid@.take(i as int));
            assert(oid@.take(i + 1).last() == oid@[i as int]);
            assert(r@ =~= hex_of(oid@.take(i + 1)));
        }
        i += 1;
    }
    proof {
        assert(oid@.take(n as int) =~= oid@);
    }
    r
}

/// The value of one hexadecimal digit character, upper or lower case.
pub open spec fn hex_val(c: char) -> Option<int> {
    if '0' <= c <= '9' {
        Some(c as int - '0' as int)
    } else if 'a' <= c <= 'f' {
        Some(10 + c as int - 'a' as int)
    } else if 'A' <= c <= 'F' {
        Some(10 + c as int - 'A' as int)
    } else {
        None
    }
}

/// The bytes a hexadecimal string denotes: `None` when its length is odd or
/// a character is no hexadecimal digit.
pub open spec fn parse_hex_spec(s: Seq<char>) -> Option<Seq<u8>>
    decreases s.len(),
{
    if s.len() % 2 != 0 {
        None
    } else if s.len() == 0 {
        Some(Seq::empty())
    } else {
        match parse_hex_spec(s.drop_last().drop_last()) {
            None => None,
            Some(bs) => match (hex_val(s[s.len() - 2]), hex_val(s[s.len() - 1])) {
                (Some(h), Some(l)) => Some(bs.push((16 * h + l) as u8)),
                _ => None,
            },
        }
    }
}

fn hex_val_exec(c: char) -> (r: Option<u8>)
    ensures
        match r {
            Some(v) => hex_val(c) == Some(v as int) && v < 16,
            None => hex_val(c) is None,
        },
{
    if '0' <= c && c <= '9' {
        Some((c as u8) - ('0' as u8))
    } else if 'a' <= c && c <= 'f' {
        Some(10 + (c as u8) - ('a' as u8))
    } else if 'A' <= c && c <= 'F' {
        Some(10 + (c as u8) - ('A' as u8))
    } else {
        None
    }
}

/// Reads an object id from its hexadecimal string.
pub fn parse_hex(s: &str) -> (r: Option<Vec<u8>>)
    ensures
        match r {
            Some(v) => parse_hex_spec(s@) == Some(v@),
            None => parse_hex_spec(s@) is None,
        },
{
    let n = s.unicode_len();
    if n % 2 != 0 {
        proof {
            lemma_parse_hex_odd(s@);
        }
        return None;
    }
    let mut out: Vec<u8> = Vec::new();
    proof {
        assert(parse_hex_spec(s@.take(0)) == Some(out@)) by {
            assert(s@.take(0) =~= Seq::<char>::empty());
            assert(out@ =~= Seq::<u8>::empty());
        }
    }
    let mut i: usize = 0;
    while i < n
        invariant
            0 <= i <= n,
            i % 2 == 0,
            n % 2 == 0,
            n == s@.len(),
            parse_hex_spec(s@.take(i as int)) == Some(out@),
        decreases n - i,
    {
        let h = match hex_val_exec(s.get_char(i)) {
            Some(h) => h,
            None => {
                proof {
                    lemma_parse_hex_bad_digit(s@, i as int);
                }
                return None;
            },
        };
        let l = match hex_val_exec(s.get_char(i + 1)) {
            Some(l) => l,
            None => {
                proof {
                    lemma_parse_hex_bad_digit(s@, i + 1);
                }
                return None;
            },
        };
        out.push(16 * h + l);
        proof {
            assert(s@.take(i + 2).drop_last().drop_last() =~= s@.take(i as int));
            assert(s@.take(i + 2)[i as int] == s@[i as int]);
            assert(s@.take(i + 2)[i + 1] == s@[i + 1]);
        }
        i += 2;
    }
    proof {
        assert(s@.take(n as int) =~= s@);
    }
    Some(out)
}

proof fn lemma_parse_hex_odd(s: Seq<char>)
    requires
        s.len() % 2 != 0,
    ensures
        parse_hex_spec(s) is None,
{
}

/// A string with a non-digit at any position does not parse.
proof fn lemma_parse_hex_bad_digit(s: Seq<char>, i: int)
    requires
        0 <= i < s.len(),
        hex_val(s[i]) is None,
    ensures
        parse_hex_spec(s) is None,
    decreases s.len(),
{
    if s.len() % 2 != 0 {
    } else if i >= s.len() - 2 {
    } else {
        lemma_parse_hex_bad_digit(s.drop_last().drop_last(), i);
    }
}

/// Reading back a written object id yields the id: the commit tag in an
/// export file name round-trips.
pub proof fn lemma_hex_round_trip(bytes: Seq<u8>)
    ensures
        parse_hex_spec(hex_of(bytes)) == Some(bytes),
    decreases bytes.len(),
{
    reveal_strlit("0123456789abcdef");
    if bytes.len() == 0 {
        assert(hex_of(bytes) =~= Seq::<char>::empty());
    } else {
        lemma_hex_round_trip(bytes.drop_last());
        let s = hex_of(bytes);
        let b = bytes.last();
        assert(s.len() == hex_of(bytes.drop_last()).len() + 2) by {
            lemma_hex_of_len(bytes);
        }
        assert(s.drop_last().drop_last() =~= hex_of(bytes.drop_last()));
        assert(s[s.len() - 2] == hex_digit(b as int / 16));
        assert(s[s.len() - 1] == hex_digit(b as int % 16));
        assert(hex_val(hex_digit(b as int / 16)) == Some(b as int / 16));
        assert(hex_val(hex_digit(b as int % 16)) == Some(b as int % 16));
        assert(16 * ((b / 16) as int) + (b % 16) as int == b as int);
        assert(parse_hex_spec(s) == Some(bytes.drop_last().push(b)));
        assert(bytes.drop_last().push(b) =~= bytes);
    }
}

/// Two output characters per byte.
pub proof fn lemma_hex_of_len(bytes: Seq<u8>)
    ensures
        hex_of(bytes).len() == 2 * bytes.len(),
    decreases bytes.len(),
{
    if bytes.len() > 0 {
        lemma_hex_of_len(bytes.drop_last());
    }
}

/// The name of a commit's export file: `commit_<hex>.json` with the full
/// hexadecimal commit id.
pub open spec fn export_file_name_spec(commit_hex: Seq<char>) -> Seq<char> {
    "commit_"@ + commit_hex + ".json"@
}

/// Writes the export file name of a commit.
pub fn export_file_name(commit_id_str: &str) -> (r: String)
    ensures
        r@ == export_file_name_spec(commit_id_str@),
{
    let mut r = "commit_".to_owned();
    r.append(commit_id_str);
    r.append(".json");
    r
}

/// The directory a repository+branch pair exports into:
/// `<base>/beastrepocheck/<repository directory name>/<branch>`.
pub open spec fn export_dir_spec(base: Seq<char>, repo_path: Seq<char>, branch: Seq<char>) -> Seq<
    char,
> {
    base + "/beastrepocheck/"@ + after_last_slash(repo_path) + "/"@ + branch
}

/// Writes the export directory of a repository+branch pair under the
/// preferences base directory.
pub fn export_dir(prefs_base: &str, repo_path: &str, branch_name: &str) -> (r: String)
    ensures
        r@ == export_dir_spec(prefs_base@, repo_path@, branch_name@),
{
    let mut r = prefs_base.to_owned();
    r.append("/beastrepocheck/");
    let name = crate::text::exe_name(repo_path);
    r.append(name.as_str());
    r.append("/");
    r.append(branch_name);
    r
}

/// Tags every record with the commit it was captured under, replacing any
/// earlier tag and leaving everything else unchanged.
pub fn append_commit_id(results: &mut Vec<crate::parse::BenchmarkResults>, commit_id_str: &str)
    ensures
        final(results)@.len() == old(results)@.len(),
        forall|i: int|
            0 <= i < old(results)@.len() ==> (#[trigger] final(results)@[i])@
                == (crate::parse::ResultsView {
                commit: Some(commit_id_str@),
                ..old(results)@[i]@
            }),
{
    let n = results.len();
    let mut i: usize = 0;
    while i < n
        invariant
            0 <= i <= n,
            n == results@.len(),
            results@.len() == old(results)@.len(),
            forall|j: int| i <= j < n ==> results@[j] == old(results)@[j],
            forall|j: int|
                0 <= j < i ==> (#[trigger] results@[j])@ == (crate::parse::ResultsView {
                    commit: Some(commit_id_str@),
                    ..old(results)@[j]@
                }),
        decreases n - i,
    {
        let mut record = results.remove(i);
        record.commit = Some(commit_id_str.to_owned());
        results.insert(i, record);
        i += 1;
    }
}

/// The argument list a benchmark executable is invoked with: write the
/// structured output document to `result_file`, in JSON form.
pub fn benchmark_args(result_file: &str) -> (r: Vec<String>)
    ensures
        r@.len() == 2,
        r@[0]@ == "--benchmark_out="@ + result_file@,
        r@[1]@ == "--benchmark_out_format=json"@,
{
    let mut out_flag = "--benchmark_out=".to_owned();
    out_flag.append(result_file);
    let mut r: Vec<String> = Vec::new();
    r.push(out_flag);
    r.push("--benchmark_out_format=json".to_owned());
    r
}

/// The views of a record list with every commit tag replaced.
pub open spec fn tagged_views(s: Seq<crate::parse::ResultsView>, tag: Seq<char>) -> Seq<
    crate::parse::ResultsView,
> {
    Seq::new(s.len(), |i: int| (crate::parse::ResultsView { commit: Some(tag), ..s[i] }))
}

/// What the driver reports back to the machine after performing an action.
pub enum Event {
    /// The repository was opened; `clean` says whether no operation is in
    /// progress on its working tree.
    RepositoryOpened { clean: bool },
    /// The repository path is invalid or holds no repository.
    RepositoryOpenFailed,
    /// The configured branch was checked out and the head moved to it.
    BranchCheckedOut,
    /// The configured branch could not be checked out.
    BranchCheckoutFailed,
    /// The commit graph was loaded from the repository.
    GraphLoaded { graph: crate::graph::CommitGraph },
    /// The commit graph could not be loaded.
    GraphLoadFailed,
    /// The requested commit was checked out and the head detached to it.
    CommitCheckedOut,
    /// Checking the requested commit out conflicted with the working tree.
    CommitCheckoutConflict,
    /// A build command ran to completion with this exit status.
    CommandExited { status: i32 },
    /// A build command could not be run at all.
    CommandFailed,
    /// The repository tree was scanned; these are the entries seen.
    Discovered { entries: Vec<crate::find::FileEntry> },
    /// A benchmark executable was run; `exit_ok` says it ran and exited
    /// with status zero, `output` is the document it wrote.
    BenchmarkRan { exit_ok: bool, output: String },
    /// The per-commit export file was written, or not.
    Exported { ok: bool },
}

/// What the machine asks the driver to do next.
pub enum Action {
    /// Open the repository at this path and report its state.
    OpenRepository { path: String },
    /// Check this branch out and move the head to it.
    CheckoutBranch { branch: String },
    /// Load the commit graph of the repository.
    LoadGraph,
    /// Check the commit with this object id out, detaching the head.
    CheckoutCommit { id: Vec<u8> },
    /// Run this shell command line in the repository's working directory.
    RunBuildCommand { command: String },
    /// Scan the repository's working directory tree and report every entry.
    DiscoverBenchmarks,
    /// Run this benchmark executable and report its output document.
    RunBenchmark { exe: String },
    /// Write these records to this file in the export directory.
    ExportResults { file_name: String, records: Vec<crate::parse::BenchmarkResults> },
    /// The run is over: the walk completed, or the phase names the error.
    Stop,
}

/// Where the walk of one commit stands.
pub enum Stage {
    /// The commit still has to be checked out.
    Checkout,
    /// Build commands are running; this one is in flight.
    Build { next_cmd: usize },
    /// The tree is built and awaits the benchmark scan.
    Discover,
    /// Benchmarks are running: the discovered executables, the one in
    /// flight, and the runs finished so far.
    Run { pending: Vec<String>, next: usize, results: Vec<crate::parse::BenchmarkResults> },
    /// The commit's records were handed out for export.
    Export,
}

/// The phase of a repocheck run.
pub enum Phase {
    /// Nothing is known of the repository yet.
    Unchecked,
    /// The repository is open and its state clean.
    Opened,
    /// The configured branch is checked out.
    BranchReady,
    /// The resolved commits are being walked, oldest first.
    Walking { commits: Vec<CommitRef>, pos: usize, stage: Stage },
    /// Every commit of the range was built, run and exported.
    Done,
    /// The run stopped at this error; nothing further happens.
    Failed { error: RepocheckError },
}

/// The orchestration state machine of one repocheck run.
pub struct Walk {
    pub settings: RepocheckSettings,
    pub commands: Vec<String>,
    pub phase: Phase,
}

/// The error a failed range resolution surfaces as.
pub open spec fn range_error_of(e: crate::graph::RangeError) -> RepocheckError {
    match e {
        crate::graph::RangeError::UnknownRevision => RepocheckError::UnknownRevision,
        crate::graph::RangeError::InvalidRange => RepocheckError::InvalidRange,
    }
}

/// The error a rejected benchmark document surfaces as.
pub open spec fn parse_error_of(e: crate::parse::ParseError) -> RepocheckError {
    match e {
        crate::parse::ParseError::MalformedOutput => RepocheckError::MalformedOutput,
        crate::parse::ParseError::UnsupportedTimeUnit => RepocheckError::UnsupportedTimeUnit,
    }
}

/// Whether a commit list realizes a resolved index sequence: same length,
/// the graph's ids in walk order, positions counted from zero.
pub open spec fn commits_match(
    refs: Seq<CommitRef>,
    g: crate::graph::CommitGraph,
    seg: Seq<int>,
) -> bool {
    &&& refs.len() == seg.len()
    &&& forall|i: int|
        0 <= i < refs.len() ==> (#[trigger] refs[i]).id@ == g.nodes@[seg[i]].id@ && refs[i].position
            == i
}

/// The machine halted at an error and asks the driver to stop.
pub open spec fn halted(post: Walk, action: Action, e: RepocheckError) -> bool {
    &&& post.phase == (Phase::Failed { error: e })
    &&& action is Stop
}

impl Walk {
    /// What always holds of a live machine: a walk has at least one commit,
    /// the walk position and the build command index stay in range, and a
    /// running stage has an executable in flight.
    pub open spec fn inv(self) -> bool {
        match self.phase {
            Phase::Walking { commits, pos, stage } => {
                &&& commits@.len() >= 1
                &&& pos < commits@.len()
                &&& match stage {
                    Stage::Build { next_cmd } => next_cmd < self.commands@.len(),
                    Stage::Run { pending, next, results } => next < pending@.len(),
                    _ => true,
                }
            },
            _ => true,
        }
    }

    /// Which events answer the pending action of each phase. The driver
    /// feeds back the outcome of the action it was given, so this always
    /// holds by construction; a finished or failed machine accepts anything
    /// and stands still.
    pub open spec fn event_fits(self, event: Event) -> bool {
        match (self.phase, event) {
            (Phase::Unchecked, Event::RepositoryOpened { .. }) => true,
            (Phase::Unchecked, Event::RepositoryOpenFailed) => true,
            (Phase::Opened, Event::BranchCheckedOut) => true,
            (Phase::Opened, Event::BranchCheckoutFailed) => true,
            (Phase::BranchReady, Event::GraphLoaded { graph }) => graph.well_formed(),
            (Phase::BranchReady, Event::GraphLoadFailed) => true,
            (Phase::Walking { stage: Stage::Checkout, .. }, Event::CommitCheckedOut) => true,
            (Phase::Walking { stage: Stage::Checkout, .. }, Event::CommitCheckoutConflict) => true,
            (Phase::Walking { stage: Stage::Build { .. }, .. }, Event::CommandExited { .. }) => true,
            (Phase::Walking { stage: Stage::Build { .. }, .. }, Event::CommandFailed) => true,
            (Phase::Walking { stage: Stage::Discover, .. }, Event::Discovered { .. }) => true,
            (Phase::Walking { stage: Stage::Run { .. }, .. }, Event::BenchmarkRan { .. }) => true,
            (Phase::Walking { stage: Stage::Export, .. }, Event::Exported { .. }) => true,
            (Phase::Done, _) => true,
            (Phase::Failed { .. }, _) => true,
            _ => false,
        }
    }
}

/// The transition relation of the machine: what phase and action follow
/// from a phase and the event that answers it. Settings and build commands
/// never change.
pub open spec fn step_rel(pre: Walk, event: Event, post: Walk, action: Action) -> bool {
    &&& post.settings == pre.settings
    &&& post.commands == pre.commands
    &&& match (pre.phase, event) {
        (Phase::Unchecked, Event::RepositoryOpened { clean }) => {
            if clean {
                &&& post.phase is Opened
                &&& action matches Action::CheckoutBranch { branch } && branch@
                    == pre.settings.branch_name@
            } else {
                halted(post, action, RepocheckError::DirtyRepository)
            }
        },
        (Phase::Unchecked, Event::RepositoryOpenFailed) => halted(
            post,
            action,
            RepocheckError::RepositoryOpenFailure,
        ),
        (Phase::Opened, Event::BranchCheckedOut) => {
            &&& post.phase is BranchReady
            &&& action is LoadGraph
        },
        (Phase::Opened, Event::BranchCheckoutFailed) => halted(
            post,
            action,
            RepocheckError::BranchCheckoutFailure,
        ),
        (Phase::BranchReady, Event::GraphLoaded { graph }) => {
            match (
                parse_hex_spec(pre.settings.from_commit@),
                parse_hex_spec(pre.settings.to_commit@),
            ) {
                (Some(fid), Some(tid)) => {
                    match crate::graph::resolve_spec(graph, fid, tid) {
                        Ok(seg) => {
                            &&& post.phase matches Phase::Walking { commits, pos, stage }
                                && commits_match(commits@, graph, seg) && pos == 0
                                && stage is Checkout
                            &&& action matches Action::CheckoutCommit { id } && id@
                                == g_id(graph, seg[0])
                        },
                        Err(e) => halted(post, action, range_error_of(e)),
                    }
                },
                _ => halted(post, action, RepocheckError::UnknownRevision),
            }
        },
        (Phase::BranchReady, Event::GraphLoadFailed) => halted(
            post,
            action,
            RepocheckError::UnknownRevision,
        ),
        (Phase::Walking { commits, pos, stage: Stage::Checkout }, Event::CommitCheckedOut) => {
            &&& post.phase matches Phase::Walking { commits: c2, pos: p2, stage: s2 } && c2
                == commits && p2 == pos && built_or_discovering(s2, action, pre.commands)
        },
        (
            Phase::Walking { commits, pos, stage: Stage::Checkout },
            Event::CommitCheckoutConflict,
        ) => halted(post, action, RepocheckError::CheckoutConflict),
        (
            Phase::Walking { commits, pos, stage: Stage::Build { next_cmd } },
            Event::CommandExited { status },
        ) => {
            if status != 0 {
                halted(post, action, RepocheckError::BuildFailure)
            } else if next_cmd + 1 < pre.commands@.len() {
                &&& post.phase matches Phase::Walking {
                    commits: c2,
                    pos: p2,
                    stage: Stage::Build { next_cmd: n2 },
                } && c2 == commits && p2 == pos && n2 == next_cmd + 1
                &&& action matches Action::RunBuildCommand { command } && command@
                    == pre.commands@[next_cmd + 1]@
            } else {
                &&& post.phase matches Phase::Walking { commits: c2, pos: p2, stage: s2 } && c2
                    == commits && p2 == pos && s2 is Discover
                &&& action is DiscoverBenchmarks
            }
        },
        (Phase::Walking { commits, pos, stage: Stage::Build { .. } }, Event::CommandFailed) => {
            halted(post, action, RepocheckError::BuildFailure)
        },
        (
            Phase::Walking { commits, pos, stage: Stage::Discover },
            Event::Discovered { entries },
        ) => {
            if !crate::find::regex_valid(pre.settings.benchmark_regex@) {
                halted(post, action, RepocheckError::InvalidPattern)
            } else {
                let paths = crate::find::matching_paths(
                    crate::find::views_of_entries(entries@),
                    pre.settings.benchmark_regex@,
                );
                if paths.len() > 0 {
                    &&& post.phase matches Phase::Walking {
                        commits: c2,
                        pos: p2,
                        stage: Stage::Run { pending, next, results },
                    } && c2 == commits && p2 == pos && crate::find::views_of_strings(pending@)
                        == paths && next == 0 && results@.len() == 0
                    &&& action matches Action::RunBenchmark { exe } && exe@ == paths[0]
                } else {
                    exporting(post, action, commits, pos, Seq::empty())
                }
            }
        },
        (
            Phase::Walking { commits, pos, stage: Stage::Run { pending, next, results } },
            Event::BenchmarkRan { exit_ok, output },
        ) => {
            if !exit_ok {
                halted(post, action, RepocheckError::ExecutionFailure)
            } else {
                match crate::parse::parse_single_spec(output@) {
                    Err(e) => halted(post, action, parse_error_of(e)),
                    Ok(run) => {
                        if next + 1 < pending@.len() {
                            &&& post.phase matches Phase::Walking {
                                commits: c2,
                                pos: p2,
                                stage: Stage::Run { pending: pd2, next: n2, results: r2 },
                            } && c2 == commits && p2 == pos && pd2 == pending && n2 == next + 1
                                && crate::parse::views_of_records(r2@)
                                == crate::parse::views_of_records(results@).push(run)
                            &&& action matches Action::RunBenchmark { exe } && exe@ == pending@[next
                                + 1]@
                        } else {
                            exporting(
                                post,
                                action,
                                commits,
                                pos,
                                crate::parse::views_of_records(results@).push(run),
                            )
                        }
                    },
                }
            }
        },
        (Phase::Walking { commits, pos, stage: Stage::Export }, Event::Exported { ok }) => {
            if !ok {
                halted(post, action, RepocheckError::ExportFailure)
            } else if pos + 1 < commits@.len() {
                &&& post.phase matches Phase::Walking { commits: c2, pos: p2, stage: s2 } && c2
                    == commits && p2 == pos + 1 && s2 is Checkout
                &&& action matches Action::CheckoutCommit { id } && id@ == commits@[pos + 1].id@
            } else {
                &&& post.phase is Done
                &&& action is Stop
            }
        },
        (Phase::Done, _) => {
            &&& post.phase is Done
            &&& action is Stop
        },
        (Phase::Failed { error }, _) => halted(post, action, error),
        _ => true,
    }
}

/// The id of a graph node, as read by the walk.
pub open spec fn g_id(g: crate::graph::CommitGraph, i: int) -> Seq<u8> {
    g.nodes@[i].id@
}

/// After a checkout the machine builds, or goes straight to discovery when
/// no build commands are configured.
pub open spec fn built_or_discovering(stage: Stage, action: Action, commands: Vec<String>) -> bool {
    if commands@.len() > 0 {
        &&& stage == (Stage::Build { next_cmd: 0 })
        &&& action matches Action::RunBuildCommand { command } && command@ == commands@[0]@
    } else {
        &&& stage is Discover
        &&& action is DiscoverBenchmarks
    }
}

/// A byte-for-byte copy of an object id.
fn copy_id(id: &Vec<u8>) -> (r: Vec<u8>)
    ensures
        r@ == id@,
{
    let n = id.len();
    let mut r: Vec<u8> = Vec::new();
    let mut i: usize = 0;
    while i < n
        invariant
            0 <= i <= n,
            n == id@.len(),
            r@.len() == i,
            forall|j: int| 0 <= j < i ==> r@[j] == id@[j],
        decreases n - i,
    {
        r.push(id[i]);
        i += 1;
    }
    proof {
        assert(r@ =~= id@);
    }
    r
}

impl Walk {
    /// Sets a run up from its settings: the build command lines are split
    /// once, and the driver is asked to open the repository.
    pub fn new(settings: RepocheckSettings) -> (r: (Walk, Action))
        ensures
            r.0.inv(),
            r.0.phase is Unchecked,
            r.0.settings == settings,
            r.0.commands.deep_view() == crate::text::split_lines_spec(settings.build_commands@),
            r.1 matches Action::OpenRepository { path } && path@ == settings.repo_path@,
    {
        let commands = crate::text::split_lines(settings.build_commands.as_str());
        let action = Action::OpenRepository { path: settings.repo_path.clone() };
        (Walk { settings, commands, phase: Phase::Unchecked }, action)
    }

    /// One transition of the walk: the machine consumes the outcome of its
    /// pending action and decides the next phase and action.
    pub fn step(self, event: Event) -> (r: (Walk, Action))
        requires
            self.inv(),
            self.event_fits(event),
        ensures
            r.0.inv(),
            step_rel(self, event, r.0, r.1),
    {
        let Walk { settings, commands, phase } = self;
        match (phase, event) {
            (Phase::Unchecked, Event::RepositoryOpened { clean }) => {
                if clean {
                    let action = Action::CheckoutBranch { branch: settings.branch_name.clone() };
                    (Walk { settings, commands, phase: Phase::Opened }, action)
                } else {
                    (
                        Walk {
                            settings,
                            commands,
                            phase: Phase::Failed { error: RepocheckError::DirtyRepository },
                        },
                        Action::Stop,
                    )
                }
            },
            (Phase::Unchecked, Event::RepositoryOpenFailed) => {
                (
                    Walk {
                        settings,
                        commands,
                        phase: Phase::Failed { error: RepocheckError::RepositoryOpenFailure },
                    },
                    Action::Stop,
                )
            },
            (Phase::Opened, Event::BranchCheckedOut) => {
                (Walk { settings, commands, phase: Phase::BranchReady }, Action::LoadGraph)
            },
            (Phase::Opened, Event::BranchCheckoutFailed) => {
                (
                    Walk {
                        settings,
                        commands,
                        phase: Phase::Failed { error: RepocheckError::BranchCheckoutFailure },
                    },
                    Action::Stop,
                )
            },
            (Phase::BranchReady, Event::GraphLoaded { graph }) => {
                let fid = match parse_hex(settings.from_commit.as_str()) {
                    Some(fid) => fid,
                    None => {
                        return (
                            Walk {
                                settings,
                                commands,
                                phase: Phase::Failed { error: RepocheckError::UnknownRevision },
                            },
                            Action::Stop,
                        );
                    },
                };
                let tid = match parse_hex(settings.to_commit.as_str()) {
                    Some(tid) => tid,
                    None => {
                        return (
                            Walk {
                                settings,
                                commands,
                                phase: Phase::Failed { error: RepocheckError::UnknownRevision },
                            },
                            Action::Stop,
                        );
                    },
                };
                match crate::graph::resolve_range(&graph, &fid, &tid) {
                    Err(e) => {
                        let error = match e {
                            crate::graph::RangeError::UnknownRevision => RepocheckError::UnknownRevision,
                            crate::graph::RangeError::InvalidRange => RepocheckError::InvalidRange,
                        };
                        (
                            Walk { settings, commands, phase: Phase::Failed { error } },
                            Action::Stop,
                        )
                    },
                    Ok(indices) => {
                        let ghost seg = crate::graph::indices_of(indices@);
                        proof {
                            crate::graph::lemma_resolve_ok(graph, fid@, tid@);
                            assert forall|j: int| 0 <= j < indices@.len() implies 0
                                <= #[trigger] indices@[j] < graph.nodes@.len() by {
                                assert(seg[j] == indices@[j] as int);
                            }
                        }
                        let mut commits: Vec<CommitRef> = Vec::new();
                        let n = indices.len();
                        let mut i: usize = 0;
                        while i < n
                            invariant
                                0 <= i <= n,
                                n == indices@.len(),
                                seg == crate::graph::indices_of(indices@),
                                forall|j: int|
                                    0 <= j < n ==> 0 <= #[trigger] indices@[j] < graph.nodes@.len(),
                                commits@.len() == i,
                                forall|j: int|
                                    0 <= j < i ==> (#[trigger] commits@[j]).id@
                                        == graph.nodes@[seg[j]].id@ && commits@[j].position == j,
                            decreases n - i,
                        {
                            let idx = indices[i];
                            let id = copy_id(&graph.nodes[idx].id);
                            commits.push(CommitRef { id, position: i });
                            i += 1;
                        }
                        let first_id = copy_id(&commits[0].id);
                        let action = Action::CheckoutCommit { id: first_id };
                        proof {
                            assert(commits_match(commits@, graph, seg));
                        }
                        (
                            Walk {
                                settings,
                                commands,
                                phase: Phase::Walking { commits, pos: 0, stage: Stage::Checkout },
                            },
                            action,
                        )
                    },
                }
            },
            (Phase::BranchReady, Event::GraphLoadFailed) => {
                (
                    Walk {
                        settings,
                        commands,
                        phase: Phase::Failed { error: RepocheckError::UnknownRevision },
                    },
                    Action::Stop,
                )
            },
            (
                Phase::Walking { commits, pos, stage: Stage::Checkout },
                Event::CommitCheckedOut,
            ) => {
                if commands.len() > 0 {
                    let action = Action::RunBuildCommand { command: commands[0].clone() };
                    (
                        Walk {
                            settings,
                            commands,
                            phase: Phase::Walking {
                                commits,
                                pos,
                                stage: Stage::Build { next_cmd: 0 },
                            },
                        },
                        action,
                    )
                } else {
                    (
                        Walk {
                            settings,
                            commands,
                            phase: Phase::Walking { commits, pos, stage: Stage::Discover },
                        },
                        Action::DiscoverBenchmarks,
                    )
                }
            },
            (
                Phase::Walking { commits, pos, stage: Stage::Checkout },
                Event::CommitCheckoutConflict,
            ) => {
                (
                    Walk {
                        settings,
                        commands,
                        phase: Phase::Failed { error: RepocheckError::CheckoutConflict },
                    },
                    Action::Stop,
                )
            },
            (
                Phase::Walking { commits, pos, stage: Stage::Build { next_cmd } },
                Event::CommandExited { status },
            ) => {
                let n_cmds = commands.len();
                if status != 0 {
                    (
                        Walk {
                            settings,
                            commands,
                            phase: Phase::Failed { error: RepocheckError::BuildFailure },
                        },
                        Action::Stop,
                    )
                } else if next_cmd + 1 < n_cmds {
                    let action = Action::RunBuildCommand {
                        command: commands[next_cmd + 1].clone(),
                    };
                    (
                        Walk {
                            settings,
                            commands,
                            phase: Phase::Walking {
                                commits,
                                pos,
                                stage: Stage::Build { next_cmd: next_cmd + 1 },
                            },
                        },
                        action,
                    )
                } else {
                    (
                        Walk {
                            settings,
                            commands,
                            phase: Phase::Walking { commits, pos, stage: Stage::Discover },
                        },
                        Action::DiscoverBenchmarks,
                    )
                }
            },
            (
                Phase::Walking { commits, pos, stage: Stage::Build { .. } },
                Event::CommandFailed,
            ) => {
                (
                    Walk {
                        settings,
                        commands,
                        phase: Phase::Failed { error: RepocheckError::BuildFailure },
                    },
                    Action::Stop,
                )
            },
            (
                Phase::Walking { commits, pos, stage: Stage::Discover },
                Event::Discovered { entries },
            ) => {
                match crate::find::find_executables(&entries, settings.benchmark_regex.as_str()) {
                    None => {
                        (
                            Walk {
                                settings,
                                commands,
                                phase: Phase::Failed { error: RepocheckError::InvalidPattern },
                            },
                            Action::Stop,
                        )
                    },
                    Some(paths) => {
                        if paths.len() > 0 {
                            let action = Action::RunBenchmark { exe: paths[0].clone() };
                            (
                                Walk {
                                    settings,
                                    commands,
                                    phase: Phase::Walking {
                                        commits,
                                        pos,
                                        stage: Stage::Run {
                                            pending: paths,
                                            next: 0,
                                            results: Vec::new(),
                                        },
                                    },
                                },
                                action,
                            )
                        } else {
                            let commit_hex = id_to_str(commits[pos].id.as_slice());
                            let file_name = export_file_name(commit_hex.as_str());
                            let records: Vec<crate::parse::BenchmarkResults> = Vec::new();
                            proof {
                                assert(crate::parse::views_of_records(records@) =~= tagged_views(
                                    Seq::empty(),
                                    hex_of(commits@[pos as int].id@),
                                ));
                            }
                            (
                                Walk {
                                    settings,
                                    commands,
                                    phase: Phase::Walking { commits, pos, stage: Stage::Export },
                                },
                                Action::ExportResults { file_name, records },
                            )
                        }
                    },
                }
            },
            (
                Phase::Walking { commits, pos, stage: Stage::Run { pending, next, results } },
                Event::BenchmarkRan { exit_ok, output },
            ) => {
                let n_pending = pending.len();
                if !exit_ok {
                    return (
                        Walk {
                            settings,
                            commands,
                            phase: Phase::Failed { error: RepocheckError::ExecutionFailure },
                        },
                        Action::Stop,
                    );
                }
                match crate::parse::parse_single_benchmark_file(output.as_str()) {
                    Err(e) => {
                        let error = match e {
                            crate::parse::ParseError::MalformedOutput => RepocheckError::MalformedOutput,
                            crate::parse::ParseError::UnsupportedTimeUnit => RepocheckError::UnsupportedTimeUnit,
                        };
                        (
                            Walk { settings, commands, phase: Phase::Failed { error } },
                            Action::Stop,
                        )
                    },
                    Ok(record) => {
                        let mut results = results;
                        let ghost before = crate::parse::views_of_records(results@);
                        results.push(record);
                        proof {
                            assert(crate::parse::views_of_records(results@) =~= before.push(
                                crate::parse::parse_single_spec(output@).unwrap(),
                            ));
                        }
                        if next + 1 < n_pending {
                            let action = Action::RunBenchmark { exe: pending[next + 1].clone() };
                            (
                                Walk {
                                    settings,
                                    commands,
                                    phase: Phase::Walking {
                                        commits,
                                        pos,
                                        stage: Stage::Run { pending, next: next + 1, results },
                                    },
                                },
                                action,
                            )
                        } else {
                            let ghost runs = crate::parse::views_of_records(results@);
                            let commit_hex = id_to_str(commits[pos].id.as_slice());
                            let file_name = export_file_name(commit_hex.as_str());
                            append_commit_id(&mut results, commit_hex.as_str());
                            proof {
                                assert(crate::parse::views_of_records(results@) =~= tagged_views(
                                    runs,
                                    hex_of(commits@[pos as int].id@),
                                ));
                            }
                            (
                                Walk {
                                    settings,
                                    commands,
                                    phase: Phase::Walking { commits, pos, stage: Stage::Export },
                                },
                                Action::ExportResults { file_name, records: results },
                            )
                        }
                    },
                }
            },
            (
                Phase::Walking { commits, pos, stage: Stage::Export },
                Event::Exported { ok },
            ) => {
                let n_commits = commits.len();
                if !ok {
                    (
                        Walk {
                            settings,
                            commands,
                            phase: Phase::Failed { error: RepocheckError::ExportFailure },
                        },
                        Action::Stop,
                    )
                } else if pos + 1 < n_commits {
                    let id = copy_id(&commits[pos + 1].id);
                    (
                        Walk {
                            settings,
                            commands,
                            phase: Phase::Walking { commits, pos: pos + 1, stage: Stage::Checkout },
                        },
                        Action::CheckoutCommit { id },
                    )
                } else {
                    (Walk { settings, commands, phase: Phase::Done }, Action::Stop)
                }
            },
            (Phase::Done, _) => (Walk { settings, commands, phase: Phase::Done }, Action::Stop),
            (Phase::Failed { error }, _) => {
                (Walk { settings, commands, phase: Phase::Failed { error } }, Action::Stop)
            },
            (phase, _) => {
                proof {
                    assert(false);
                }
                (Walk { settings, commands, phase }, Action::Stop)
            },
        }
    }
}

/// A build command exiting with a non-zero status fails the walk for good:
/// the machine enters the failed phase and asks the driver to stop, so no
/// export is requested for the failing commit and no later commit is
/// touched.
pub proof fn lemma_build_failure_halts(pre: Walk, event: Event, post: Walk, action: Action)
    requires
        step_rel(pre, event, post, action),
        pre.phase matches Phase::Walking { stage: Stage::Build { .. }, .. },
        event matches Event::CommandExited { status } && status != 0,
    ensures
        post.phase == (Phase::Failed { error: RepocheckError::BuildFailure }),
        action is Stop,
{
}

/// A failed machine is final: whatever event arrives, it stays failed with
/// the same error and only ever asks the driver to stop.
pub proof fn lemma_failed_is_final(pre: Walk, event: Event, post: Walk, action: Action)
    requires
        step_rel(pre, event, post, action),
        pre.phase matches Phase::Failed { .. },
    ensures
        post.phase == pre.phase,
        action is Stop,
{
}

/// An export is only ever requested for the commit currently walked, and
/// only once its build commands and benchmark runs all succeeded: from the
/// discovery stage (no benchmarks found) or from the last benchmark run.
pub proof fn lemma_export_only_while_walking(pre: Walk, event: Event, post: Walk, action: Action)
    requires
        pre.event_fits(event),
        step_rel(pre, event, post, action),
        action matches Action::ExportResults { .. },
    ensures
        pre.phase matches Phase::Walking { stage, .. } && (stage is Discover || stage is Run),
        post.phase matches Phase::Walking { pos, stage, .. } && stage is Export && pos
            == pre.phase->Walking_pos,
{
}

/// The walk is strictly sequential: a step never reorders, skips or
/// revisits commits, and the position advances exactly when the current
/// commit's export was confirmed.
pub proof fn lemma_walk_is_sequential(pre: Walk, event: Event, post: Walk, action: Action)
    requires
        pre.event_fits(event),
        step_rel(pre, event, post, action),
        pre.phase matches Phase::Walking { .. },
        post.phase matches Phase::Walking { .. },
    ensures
        post.phase->Walking_commits == pre.phase->Walking_commits,
        post.phase->Walking_pos == pre.phase->Walking_pos || (post.phase->Walking_pos
            == pre.phase->Walking_pos + 1 && pre.phase->Walking_stage is Export && event == (
        Event::Exported { ok: true }) && post.phase->Walking_stage is Checkout),
{
}

/// The machine hands the finished records of the current commit out for
/// export, tagged with that commit's id.
pub open spec fn exporting(
    post: Walk,
    action: Action,
    commits: Vec<CommitRef>,
    pos: usize,
    runs: Seq<crate::parse::ResultsView>,
) -> bool {
    &&& post.phase matches Phase::Walking { commits: c2, pos: p2, stage: s2 } && c2 == commits && p2
        == pos && s2 is Export
    &&& action matches Action::ExportResults { file_name, records } && file_name@
        == export_file_name_spec(hex_of(commits@[pos as int].id@))
        && crate::parse::views_of_records(records@) == tagged_views(
        runs,
        hex_of(commits@[pos as int].id@),
    )
}

} // verus!
