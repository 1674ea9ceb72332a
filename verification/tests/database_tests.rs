use beast::database::EntryFilter;

#[test]
fn test_entry_filter_pattern() {
    let filter = EntryFilter::ExeName(".*-benchmark".to_string());
    assert_eq!(filter.pattern(), ".*-benchmark");
}
