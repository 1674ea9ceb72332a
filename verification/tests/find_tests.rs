use beast::find::{find_executable_benchmarks, find_executables, FileEntry};

fn entry(path: &str, is_file: bool, is_executable: bool) -> FileEntry {
    FileEntry { path: path.to_string(), is_file, is_executable }
}

#[test]
fn test_discovery_keeps_executable_matching_files_only() {
    let entries = vec![
        entry("/repo/foo-benchmark", true, true),
        entry("/repo/foo-benchmark.log", true, false),
    ];
    let found = find_executables(&entries, ".*benchmark[^.]*$").expect("pattern is valid");
    assert_eq!(found, vec!["/repo/foo-benchmark".to_string()]);
}

#[test]
fn test_discovery_skips_directories_and_non_executables() {
    let entries = vec![
        entry("/repo/bin", false, true),
        entry("/repo/bin/a-benchmark", true, true),
        entry("/repo/notes-benchmark", true, false),
        entry("/repo/bin/b-benchmark", true, true),
    ];
    let found = find_executables(&entries, ".*benchmark[^.]*$").expect("pattern is valid");
    assert_eq!(
        found,
        vec!["/repo/bin/a-benchmark".to_string(), "/repo/bin/b-benchmark".to_string()]
    );
}

#[test]
fn test_discovery_matches_file_name_not_path() {
    // The pattern anchors on the file name; a matching directory name alone
    // does not qualify the file.
    let entries = vec![entry("/repo/foo-benchmark/readme.txt", true, true)];
    let found = find_executables(&entries, ".*benchmark[^.]*$").expect("pattern is valid");
    assert!(found.is_empty());
}

#[test]
fn test_discovery_invalid_pattern() {
    let entries = vec![entry("/repo/foo-benchmark", true, true)];
    assert_eq!(find_executables(&entries, "foo(bar"), None);
}

#[test]
fn test_discovery_empty_tree_is_not_an_error() {
    let found = find_executables(&Vec::new(), ".*benchmark[^.]*$").expect("pattern is valid");
    assert!(found.is_empty());
}

#[test]
fn test_glob_discovery_matches_full_path() {
    let entries = vec![
        entry("/repo/foo-benchmark", true, true),
        entry("/repo/foo-benchmark.log", true, false),
        entry("/repo/tool", true, true),
    ];
    let found = find_executable_benchmarks(&entries).expect("the fixed glob is valid");
    assert_eq!(found, vec!["/repo/foo-benchmark".to_string()]);
}
