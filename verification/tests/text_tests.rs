use beast::text::{build_label, exe_name, split_lines, str_eq};

#[test]
fn test_build_label_function() {
    assert_eq!(build_label("Test", "123"), "Test (123)");
    assert_eq!(build_label("Test", ""), "Test");
}

#[test]
fn test_str_eq() {
    assert!(str_eq("abc", "abc"));
    assert!(!str_eq("abc", "abd"));
    assert!(!str_eq("abc", "ab"));
    assert!(str_eq("", ""));
}

#[test]
fn test_exe_name_plain() {
    assert_eq!(exe_name("/usr/bin/foo-benchmark"), "foo-benchmark");
    assert_eq!(exe_name("foo-benchmark"), "foo-benchmark");
    assert_eq!(exe_name("a/b/"), "");
    assert_eq!(exe_name(""), "");
}

#[test]
fn test_split_lines_simple() {
    let lines = split_lines("make clean\nmake all");
    assert_eq!(lines, vec!["make clean".to_string(), "make all".to_string()]);
}

#[test]
fn test_split_lines_trailing_newline_and_cr() {
    let lines = split_lines("cmake ..\r\nmake\n");
    assert_eq!(lines, vec!["cmake ..".to_string(), "make".to_string()]);
}

#[test]
fn test_split_lines_empty() {
    let lines = split_lines("");
    assert!(lines.is_empty());
    let lines = split_lines("\n");
    assert_eq!(lines, vec![String::new()]);
}
