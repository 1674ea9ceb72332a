use beast::series::{group_into_traces, series_trace_name, SeriesPoint};
use beast::text::{parse_u64, split_benchmark_name};
use beast::units::ConvertedTime;

fn point(trace: &str, label: &str, whole: u128, tag: &str) -> SeriesPoint {
    SeriesPoint {
        trace: trace.to_string(),
        label: label.to_string(),
        time: ConvertedTime { whole, rem: 0, den: 1 },
        tag: tag.to_string(),
    }
}

#[test]
fn test_series_trace_name() {
    assert_eq!(series_trace_name("foo-benchmark", "BM_Sort/1000"), "foo-benchmark_BM_Sort/1000");
}

#[test]
fn test_grouping_keeps_first_appearance_order() {
    let points = vec![
        point("a", "c1", 10, "t1"),
        point("b", "c1", 20, "t1"),
        point("a", "c2", 11, "t2"),
        point("b", "c2", 21, "t2"),
    ];
    let traces = group_into_traces(&points);
    assert_eq!(traces.len(), 2);
    assert_eq!(traces[0].name, "a");
    assert_eq!(traces[0].labels, vec!["c1".to_string(), "c2".to_string()]);
    assert_eq!(traces[0].times[0].whole, 10);
    assert_eq!(traces[0].times[1].whole, 11);
    assert_eq!(traces[0].tags, vec!["t1".to_string(), "t2".to_string()]);
    assert_eq!(traces[1].name, "b");
    assert_eq!(traces[1].times[0].whole, 20);
    assert_eq!(traces[1].times[1].whole, 21);
}

#[test]
fn test_grouping_empty() {
    let traces = group_into_traces(&Vec::new());
    assert!(traces.is_empty());
}

#[test]
fn test_parse_u64() {
    assert_eq!(parse_u64("0"), Some(0));
    assert_eq!(parse_u64("1000"), Some(1000));
    assert_eq!(parse_u64("18446744073709551615"), Some(u64::MAX));
    assert_eq!(parse_u64("18446744073709551616"), None);
    assert_eq!(parse_u64(""), None);
    assert_eq!(parse_u64("12a"), None);
}

#[test]
fn test_split_benchmark_name() {
    assert_eq!(split_benchmark_name("BM_Sort/1000"), Some(("BM_Sort".to_string(), 1000)));
    assert_eq!(
        split_benchmark_name("BM_Sort/1000/with_suffix"),
        Some(("BM_Sort".to_string(), 1000))
    );
    assert_eq!(split_benchmark_name("BM_Sort"), None);
    assert_eq!(split_benchmark_name("BM_Sort/abc"), None);
    assert_eq!(split_benchmark_name("BM_Sort/"), None);
}
