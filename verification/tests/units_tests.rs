use beast::units::{
    convert_time_to_unit, from_benchmark_time, parse_time_unit, unit_str, TimeUnit,
};

#[test]
fn test_parse_time_unit_supported() {
    assert_eq!(parse_time_unit("ns"), Some(TimeUnit::Nanoseconds));
    assert_eq!(parse_time_unit("us"), Some(TimeUnit::Microseconds));
    assert_eq!(parse_time_unit("ms"), Some(TimeUnit::Milliseconds));
}

#[test]
fn test_parse_time_unit_unsupported() {
    assert_eq!(parse_time_unit("fs"), None);
    assert_eq!(parse_time_unit("s"), None);
    assert_eq!(parse_time_unit(""), None);
}

#[test]
fn test_unit_names_round_trip() {
    for unit in [TimeUnit::Nanoseconds, TimeUnit::Microseconds, TimeUnit::Milliseconds] {
        assert_eq!(parse_time_unit(unit_str(unit)), Some(unit));
    }
}

#[test]
fn test_missing_unit_read_as_nanoseconds() {
    assert_eq!(from_benchmark_time(None, 42), 42);
    assert_eq!(from_benchmark_time(Some(TimeUnit::Nanoseconds), 42), 42);
    assert_eq!(from_benchmark_time(Some(TimeUnit::Microseconds), 42), 42_000);
    assert_eq!(from_benchmark_time(Some(TimeUnit::Milliseconds), 42), 42_000_000);
}

#[test]
fn test_convert_nanoseconds_to_microseconds_exactly() {
    let nanos = from_benchmark_time(Some(TimeUnit::Nanoseconds), 42);
    let converted = convert_time_to_unit(nanos, TimeUnit::Microseconds);
    assert_eq!(converted.whole, 0);
    assert_eq!(converted.rem, 42);
    assert_eq!(converted.den, 1000);
    let value = converted.whole as f64 + converted.rem as f64 / converted.den as f64;
    assert_eq!(value, 0.042);
}

#[test]
fn test_convert_whole_values() {
    let nanos = from_benchmark_time(Some(TimeUnit::Milliseconds), 3);
    let converted = convert_time_to_unit(nanos, TimeUnit::Microseconds);
    assert_eq!(converted.whole, 3000);
    assert_eq!(converted.rem, 0);
    let back = convert_time_to_unit(nanos, TimeUnit::Milliseconds);
    assert_eq!(back.whole, 3);
    assert_eq!(back.rem, 0);
}
