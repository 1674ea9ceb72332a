use beast::export::collect_repocheck_results;
use beast::parse::ParseError;

fn file_text(name: &str, commit: &str) -> String {
    format!(
        "[{{\"context\":{{\"date\":\"d\",\"executable\":\"{}\",\"num_cpus\":1,\"mhz_per_cpu\":1}},\"benchmarks\":[],\"commit\":\"{}\"}}]",
        name, commit
    )
}

#[test]
fn test_collect_concatenates_files() {
    let texts = vec![file_text("/a", "01aa"), file_text("/b", "01bb")];
    let collected = collect_repocheck_results(&texts).expect("files parse");
    assert_eq!(collected.len(), 2);
    assert_eq!(collected[0].context.executable, "/a");
    assert_eq!(collected[0].commit.as_deref(), Some("01aa"));
    assert_eq!(collected[1].context.executable, "/b");
    assert_eq!(collected[1].commit.as_deref(), Some("01bb"));
}

#[test]
fn test_collect_content_independent_of_enumeration_order() {
    let forward = vec![file_text("/a", "01aa"), file_text("/b", "01bb")];
    let backward = vec![file_text("/b", "01bb"), file_text("/a", "01aa")];
    let collected_fwd = collect_repocheck_results(&forward).expect("files parse");
    let mut collected_bwd = collect_repocheck_results(&backward).expect("files parse");
    collected_bwd.reverse();
    assert_eq!(collected_fwd, collected_bwd);
}

#[test]
fn test_collect_empty_directory() {
    let collected = collect_repocheck_results(&Vec::new()).expect("nothing to parse");
    assert!(collected.is_empty());
}

#[test]
fn test_collect_fails_on_unreadable_file() {
    let texts = vec![file_text("/a", "01aa"), "not json".to_string()];
    assert_eq!(collect_repocheck_results(&texts), Err(ParseError::MalformedOutput));
}
