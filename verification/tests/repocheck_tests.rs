use beast::graph::{CommitGraph, CommitNode};
use beast::parse::{BenchmarkContext, BenchmarkResult, BenchmarkResults};
use beast::repocheck::{
    append_commit_id, benchmark_args, export_dir, export_file_name, id_to_str, parse_hex, Action,
    Event, Phase, RepocheckError, RepocheckSettings, Stage, Walk,
};
use beast::units::TimeUnit;

#[test]
fn test_id_to_str_full_hex() {
    assert_eq!(id_to_str(&[0x01, 0xab, 0xff, 0x00]), "01abff00");
    assert_eq!(id_to_str(&[]), "");
}

#[test]
fn test_parse_hex_round_trip() {
    assert_eq!(parse_hex("01abff00"), Some(vec![0x01, 0xab, 0xff, 0x00]));
    assert_eq!(parse_hex(&id_to_str(&[0xde, 0xad])), Some(vec![0xde, 0xad]));
    assert_eq!(parse_hex("01ABff00"), Some(vec![0x01, 0xab, 0xff, 0x00]));
}

#[test]
fn test_parse_hex_rejects_bad_input() {
    assert_eq!(parse_hex("abc"), None);
    assert_eq!(parse_hex("zz"), None);
}

#[test]
fn test_export_file_name() {
    assert_eq!(export_file_name("01abff00"), "commit_01abff00.json");
}

#[test]
fn test_export_dir_layout() {
    assert_eq!(
        export_dir("/home/user/.config", "/work/myrepo", "master"),
        "/home/user/.config/beastrepocheck/myrepo/master"
    );
}

#[test]
fn test_benchmark_args() {
    let args = benchmark_args("/tmp/out.json");
    assert_eq!(args, vec![
        "--benchmark_out=/tmp/out.json".to_string(),
        "--benchmark_out_format=json".to_string(),
    ]);
}

fn one_record() -> BenchmarkResults {
    BenchmarkResults {
        context: BenchmarkContext {
            date: "d".to_string(),
            executable: "/x".to_string(),
            num_cpus: 1,
            mhz_per_cpu: 1,
        },
        benchmarks: vec![BenchmarkResult {
            name: "BM".to_string(),
            iterations: 1,
            real_time: 1,
            cpu_time: 1,
            time_unit: Some(TimeUnit::Nanoseconds),
        }],
        commit: None,
    }
}

#[test]
fn test_append_commit_id_tags_every_record() {
    let mut records = vec![one_record(), one_record()];
    append_commit_id(&mut records, "01ab");
    assert_eq!(records.len(), 2);
    for record in &records {
        assert_eq!(record.commit.as_deref(), Some("01ab"));
        assert_eq!(record.benchmarks.len(), 1);
    }
}

/// A linear history `A(root) <- B <- C`.
fn linear_graph() -> CommitGraph {
    CommitGraph {
        nodes: vec![
            CommitNode { id: vec![0xaa], time: 100, parents: vec![] },
            CommitNode { id: vec![0xbb], time: 200, parents: vec![0] },
            CommitNode { id: vec![0xcc], time: 300, parents: vec![1] },
        ],
    }
}

fn settings() -> RepocheckSettings {
    RepocheckSettings {
        version: 1,
        repo_path: "/work/myrepo".to_string(),
        branch_name: "master".to_string(),
        from_commit: "bb".to_string(),
        to_commit: "cc".to_string(),
        build_commands: "make all".to_string(),
        benchmark_regex: ".*benchmark[^.]*$".to_string(),
    }
}

fn benchmark_output() -> String {
    "{\"context\":{\"date\":\"d\",\"executable\":\"/work/myrepo/foo-benchmark\",\"num_cpus\":1,\"mhz_per_cpu\":1},\"benchmarks\":[{\"name\":\"BM\",\"iterations\":1,\"real_time\":1.0,\"cpu_time\":1.0,\"time_unit\":\"ns\"}]}".to_string()
}

fn discovered_entries() -> Event {
    Event::Discovered {
        entries: vec![beast::find::FileEntry {
            path: "/work/myrepo/foo-benchmark".to_string(),
            is_file: true,
            is_executable: true,
        }],
    }
}

#[test]
fn test_walk_exports_each_commit_in_order() {
    let (w, action) = Walk::new(settings());
    assert!(matches!(action, Action::OpenRepository { .. }));

    let (w, action) = w.step(Event::RepositoryOpened { clean: true });
    assert!(matches!(&action, Action::CheckoutBranch { branch } if branch == "master"));

    let (w, action) = w.step(Event::BranchCheckedOut);
    assert!(matches!(action, Action::LoadGraph));

    let (w, action) = w.step(Event::GraphLoaded { graph: linear_graph() });
    assert!(matches!(&action, Action::CheckoutCommit { id } if id == &vec![0xbb]));

    let (w, action) = w.step(Event::CommitCheckedOut);
    assert!(matches!(&action, Action::RunBuildCommand { command } if command == "make all"));

    let (w, action) = w.step(Event::CommandExited { status: 0 });
    assert!(matches!(action, Action::DiscoverBenchmarks));

    let (w, action) = w.step(discovered_entries());
    assert!(matches!(&action, Action::RunBenchmark { exe } if exe == "/work/myrepo/foo-benchmark"));

    let (w, action) = w.step(Event::BenchmarkRan { exit_ok: true, output: benchmark_output() });
    match &action {
        Action::ExportResults { file_name, records } => {
            assert_eq!(file_name, "commit_bb.json");
            assert_eq!(records.len(), 1);
            assert_eq!(records[0].commit.as_deref(), Some("bb"));
        }
        _ => panic!("expected an export request for the first commit"),
    }

    let (w, action) = w.step(Event::Exported { ok: true });
    assert!(matches!(&action, Action::CheckoutCommit { id } if id == &vec![0xcc]));

    let (w, action) = w.step(Event::CommitCheckedOut);
    assert!(matches!(&action, Action::RunBuildCommand { command } if command == "make all"));

    let (w, action) = w.step(Event::CommandExited { status: 0 });
    assert!(matches!(action, Action::DiscoverBenchmarks));

    let (w, action) = w.step(discovered_entries());
    assert!(matches!(action, Action::RunBenchmark { .. }));

    let (w, action) = w.step(Event::BenchmarkRan { exit_ok: true, output: benchmark_output() });
    match &action {
        Action::ExportResults { file_name, records } => {
            assert_eq!(file_name, "commit_cc.json");
            assert_eq!(records[0].commit.as_deref(), Some("cc"));
        }
        _ => panic!("expected an export request for the second commit"),
    }

    let (w, action) = w.step(Event::Exported { ok: true });
    assert!(matches!(action, Action::Stop));
    assert!(matches!(w.phase, Phase::Done));
}

#[test]
fn test_build_failure_aborts_without_export() {
    let (w, _) = Walk::new(settings());
    let (w, _) = w.step(Event::RepositoryOpened { clean: true });
    let (w, _) = w.step(Event::BranchCheckedOut);
    let (w, _) = w.step(Event::GraphLoaded { graph: linear_graph() });
    let (w, _) = w.step(Event::CommitCheckedOut);

    // The build command at the first commit exits with status 1.
    let (w, action) = w.step(Event::CommandExited { status: 1 });
    assert!(matches!(action, Action::Stop));
    assert!(matches!(w.phase, Phase::Failed { error: RepocheckError::BuildFailure }));

    // Whatever arrives later, the machine stays failed: no export, no
    // further commit.
    let (w, action) = w.step(Event::Exported { ok: true });
    assert!(matches!(action, Action::Stop));
    assert!(matches!(w.phase, Phase::Failed { error: RepocheckError::BuildFailure }));
}

#[test]
fn test_dirty_repository_is_fatal() {
    let (w, _) = Walk::new(settings());
    let (w, action) = w.step(Event::RepositoryOpened { clean: false });
    assert!(matches!(action, Action::Stop));
    assert!(matches!(w.phase, Phase::Failed { error: RepocheckError::DirtyRepository }));
}

#[test]
fn test_checkout_conflict_is_fatal() {
    let (w, _) = Walk::new(settings());
    let (w, _) = w.step(Event::RepositoryOpened { clean: true });
    let (w, _) = w.step(Event::BranchCheckedOut);
    let (w, _) = w.step(Event::GraphLoaded { graph: linear_graph() });
    let (w, action) = w.step(Event::CommitCheckoutConflict);
    assert!(matches!(action, Action::Stop));
    assert!(matches!(w.phase, Phase::Failed { error: RepocheckError::CheckoutConflict }));
}

#[test]
fn test_unknown_revision_is_fatal() {
    let mut bad = settings();
    bad.from_commit = "99".to_string();
    let (w, _) = Walk::new(bad);
    let (w, _) = w.step(Event::RepositoryOpened { clean: true });
    let (w, _) = w.step(Event::BranchCheckedOut);
    let (w, action) = w.step(Event::GraphLoaded { graph: linear_graph() });
    assert!(matches!(action, Action::Stop));
    assert!(matches!(w.phase, Phase::Failed { error: RepocheckError::UnknownRevision }));
}

#[test]
fn test_root_from_commit_is_invalid_range() {
    let mut bad = settings();
    bad.from_commit = "aa".to_string();
    let (w, _) = Walk::new(bad);
    let (w, _) = w.step(Event::RepositoryOpened { clean: true });
    let (w, _) = w.step(Event::BranchCheckedOut);
    let (w, action) = w.step(Event::GraphLoaded { graph: linear_graph() });
    assert!(matches!(action, Action::Stop));
    assert!(matches!(w.phase, Phase::Failed { error: RepocheckError::InvalidRange }));
}

#[test]
fn test_malformed_benchmark_output_is_fatal() {
    let (w, _) = Walk::new(settings());
    let (w, _) = w.step(Event::RepositoryOpened { clean: true });
    let (w, _) = w.step(Event::BranchCheckedOut);
    let (w, _) = w.step(Event::GraphLoaded { graph: linear_graph() });
    let (w, _) = w.step(Event::CommitCheckedOut);
    let (w, _) = w.step(Event::CommandExited { status: 0 });
    let (w, _) = w.step(discovered_entries());
    let (w, action) = w.step(Event::BenchmarkRan { exit_ok: true, output: "garbage".to_string() });
    assert!(matches!(action, Action::Stop));
    assert!(matches!(w.phase, Phase::Failed { error: RepocheckError::MalformedOutput }));
}

#[test]
fn test_benchmark_process_failure_is_fatal() {
    let (w, _) = Walk::new(settings());
    let (w, _) = w.step(Event::RepositoryOpened { clean: true });
    let (w, _) = w.step(Event::BranchCheckedOut);
    let (w, _) = w.step(Event::GraphLoaded { graph: linear_graph() });
    let (w, _) = w.step(Event::CommitCheckedOut);
    let (w, _) = w.step(Event::CommandExited { status: 0 });
    let (w, _) = w.step(discovered_entries());
    let (w, action) = w.step(Event::BenchmarkRan { exit_ok: false, output: String::new() });
    assert!(matches!(action, Action::Stop));
    assert!(matches!(w.phase, Phase::Failed { error: RepocheckError::ExecutionFailure }));
}

#[test]
fn test_repository_open_failure_is_fatal() {
    let (w, _) = Walk::new(settings());
    let (w, action) = w.step(Event::RepositoryOpenFailed);
    assert!(matches!(action, Action::Stop));
    assert!(matches!(w.phase, Phase::Failed { error: RepocheckError::RepositoryOpenFailure }));
}

#[test]
fn test_branch_checkout_failure_is_fatal() {
    let (w, _) = Walk::new(settings());
    let (w, _) = w.step(Event::RepositoryOpened { clean: true });
    let (w, action) = w.step(Event::BranchCheckoutFailed);
    assert!(matches!(action, Action::Stop));
    assert!(matches!(w.phase, Phase::Failed { error: RepocheckError::BranchCheckoutFailure }));
}

#[test]
fn test_graph_load_failure_is_unknown_revision() {
    let (w, _) = Walk::new(settings());
    let (w, _) = w.step(Event::RepositoryOpened { clean: true });
    let (w, _) = w.step(Event::BranchCheckedOut);
    let (w, action) = w.step(Event::GraphLoadFailed);
    assert!(matches!(action, Action::Stop));
    assert!(matches!(w.phase, Phase::Failed { error: RepocheckError::UnknownRevision }));
}

#[test]
fn test_invalid_benchmark_pattern_is_fatal() {
    let mut bad = settings();
    bad.benchmark_regex = "foo(bar".to_string();
    let (w, _) = Walk::new(bad);
    let (w, _) = w.step(Event::RepositoryOpened { clean: true });
    let (w, _) = w.step(Event::BranchCheckedOut);
    let (w, _) = w.step(Event::GraphLoaded { graph: linear_graph() });
    let (w, _) = w.step(Event::CommitCheckedOut);
    let (w, _) = w.step(Event::CommandExited { status: 0 });
    let (w, action) = w.step(discovered_entries());
    assert!(matches!(action, Action::Stop));
    assert!(matches!(w.phase, Phase::Failed { error: RepocheckError::InvalidPattern }));
}

#[test]
fn test_unsupported_time_unit_fails_the_walk() {
    let bad_output = "{\"context\":{\"date\":\"d\",\"executable\":\"/work/myrepo/foo-benchmark\",\"num_cpus\":1,\"mhz_per_cpu\":1},\"benchmarks\":[{\"name\":\"BM\",\"iterations\":1,\"real_time\":1.0,\"cpu_time\":1.0,\"time_unit\":\"fs\"}]}";
    let (w, _) = Walk::new(settings());
    let (w, _) = w.step(Event::RepositoryOpened { clean: true });
    let (w, _) = w.step(Event::BranchCheckedOut);
    let (w, _) = w.step(Event::GraphLoaded { graph: linear_graph() });
    let (w, _) = w.step(Event::CommitCheckedOut);
    let (w, _) = w.step(Event::CommandExited { status: 0 });
    let (w, _) = w.step(discovered_entries());
    let (w, action) =
        w.step(Event::BenchmarkRan { exit_ok: true, output: bad_output.to_string() });
    assert!(matches!(action, Action::Stop));
    assert!(matches!(w.phase, Phase::Failed { error: RepocheckError::UnsupportedTimeUnit }));
}

#[test]
fn test_export_failure_is_fatal() {
    let (w, _) = Walk::new(settings());
    let (w, _) = w.step(Event::RepositoryOpened { clean: true });
    let (w, _) = w.step(Event::BranchCheckedOut);
    let (w, _) = w.step(Event::GraphLoaded { graph: linear_graph() });
    let (w, _) = w.step(Event::CommitCheckedOut);
    let (w, _) = w.step(Event::CommandExited { status: 0 });
    let (w, _) = w.step(Event::Discovered { entries: vec![] });
    let (w, action) = w.step(Event::Exported { ok: false });
    assert!(matches!(action, Action::Stop));
    assert!(matches!(w.phase, Phase::Failed { error: RepocheckError::ExportFailure }));
}

#[test]
fn test_no_benchmarks_found_exports_empty_file() {
    let (w, _) = Walk::new(settings());
    let (w, _) = w.step(Event::RepositoryOpened { clean: true });
    let (w, _) = w.step(Event::BranchCheckedOut);
    let (w, _) = w.step(Event::GraphLoaded { graph: linear_graph() });
    let (w, _) = w.step(Event::CommitCheckedOut);
    let (w, _) = w.step(Event::CommandExited { status: 0 });
    let (w, action) = w.step(Event::Discovered { entries: vec![] });
    match &action {
        Action::ExportResults { file_name, records } => {
            assert_eq!(file_name, "commit_bb.json");
            assert!(records.is_empty());
        }
        _ => panic!("expected an export request with no records"),
    }
    assert!(matches!(w.phase, Phase::Walking { stage: Stage::Export, .. }));
}
