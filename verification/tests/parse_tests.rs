use beast::json::JsonVal;
use beast::parse::{
    export_cumulated_results, parse_cumulated_benchmark_file, parse_single_benchmark_file,
    BenchmarkContext, BenchmarkResult, BenchmarkResults, ParseError,
};
use beast::units::{convert_time_to_unit, from_benchmark_time, TimeUnit};

fn valid_doc(time_unit_field: &str) -> String {
    let head = "{\"context\":{\"date\":\"2024-01-02 03:04:05\",\"executable\":\"/tmp/foo-benchmark\",\"num_cpus\":8,\"mhz_per_cpu\":2400},\"benchmarks\":[{\"name\":\"BM_Sort/1000\",\"iterations\":1000,\"real_time\":50.5,\"cpu_time\":42.0";
    format!("{}{}{}", head, time_unit_field, "}]}")
}

#[test]
fn test_parse_valid_document() {
    let doc = valid_doc(",\"time_unit\":\"ns\"");
    let parsed = parse_single_benchmark_file(&doc).expect("document should parse");
    assert_eq!(parsed.context.date, "2024-01-02 03:04:05");
    assert_eq!(parsed.context.executable, "/tmp/foo-benchmark");
    assert_eq!(parsed.context.num_cpus, 8);
    assert_eq!(parsed.context.mhz_per_cpu, 2400);
    assert_eq!(parsed.benchmarks.len(), 1);
    let bm = &parsed.benchmarks[0];
    assert_eq!(bm.name, "BM_Sort/1000");
    assert_eq!(bm.iterations, 1000);
    assert_eq!(bm.real_time, 50);
    assert_eq!(bm.cpu_time, 42);
    assert_eq!(bm.time_unit, Some(TimeUnit::Nanoseconds));
    assert_eq!(parsed.commit, None);
}

#[test]
fn test_unsupported_time_unit_is_fatal() {
    let doc = valid_doc(",\"time_unit\":\"fs\"");
    assert_eq!(parse_single_benchmark_file(&doc), Err(ParseError::UnsupportedTimeUnit));
}

#[test]
fn test_missing_time_unit_is_nanoseconds() {
    let doc = valid_doc("");
    let parsed = parse_single_benchmark_file(&doc).expect("document should parse");
    assert_eq!(parsed.benchmarks[0].time_unit, None);
    let nanos = from_benchmark_time(parsed.benchmarks[0].time_unit, 42);
    assert_eq!(nanos, 42);
}

#[test]
fn test_reported_measurement_converted_to_microseconds() {
    let doc = valid_doc(",\"time_unit\":\"ns\"");
    let parsed = parse_single_benchmark_file(&doc).expect("document should parse");
    let bm = &parsed.benchmarks[0];
    assert_eq!(bm.name, "BM_Sort/1000");
    let nanos = from_benchmark_time(bm.time_unit, bm.cpu_time as u64);
    let converted = convert_time_to_unit(nanos, TimeUnit::Microseconds);
    let value = converted.whole as f64 + converted.rem as f64 / converted.den as f64;
    assert_eq!(value, 0.042);
}

#[test]
fn test_invalid_json_is_malformed() {
    assert_eq!(parse_single_benchmark_file("not json"), Err(ParseError::MalformedOutput));
    assert_eq!(parse_single_benchmark_file(""), Err(ParseError::MalformedOutput));
}

#[test]
fn test_missing_top_level_fields_is_malformed() {
    assert_eq!(parse_single_benchmark_file("{}"), Err(ParseError::MalformedOutput));
    let no_benchmarks = "{\"context\":{\"date\":\"d\",\"executable\":\"e\",\"num_cpus\":1,\"mhz_per_cpu\":1}}";
    assert_eq!(parse_single_benchmark_file(no_benchmarks), Err(ParseError::MalformedOutput));
    let no_context = "{\"benchmarks\":[]}";
    assert_eq!(parse_single_benchmark_file(no_context), Err(ParseError::MalformedOutput));
}

fn sample_records() -> Vec<BenchmarkResults> {
    vec![
        BenchmarkResults {
            context: BenchmarkContext {
                date: "2024-01-02 03:04:05".to_string(),
                executable: "/tmp/foo-benchmark".to_string(),
                num_cpus: 8,
                mhz_per_cpu: 2400,
            },
            benchmarks: vec![
                BenchmarkResult {
                    name: "BM_Sort/1000".to_string(),
                    iterations: 1000,
                    real_time: 50,
                    cpu_time: 42,
                    time_unit: Some(TimeUnit::Nanoseconds),
                },
                BenchmarkResult {
                    name: "BM_Sort/2000".to_string(),
                    iterations: 500,
                    real_time: 101,
                    cpu_time: 85,
                    time_unit: None,
                },
            ],
            commit: Some("0102abcd".to_string()),
        },
        BenchmarkResults {
            context: BenchmarkContext {
                date: "2024-01-03 03:04:05".to_string(),
                executable: "/tmp/bar-benchmark".to_string(),
                num_cpus: 8,
                mhz_per_cpu: 2400,
            },
            benchmarks: vec![],
            commit: None,
        },
    ]
}

fn to_serde_value(v: &JsonVal) -> serde_json::Value {
    match v {
        JsonVal::Null => serde_json::Value::Null,
        JsonVal::Bool(b) => serde_json::Value::Bool(*b),
        JsonVal::Num(n) => serde_json::Value::Number(serde_json::Number::from(*n)),
        JsonVal::Str(s) => serde_json::Value::String(s.clone()),
        JsonVal::Arr(a) => serde_json::Value::Array(a.iter().map(to_serde_value).collect()),
        JsonVal::Obj(o) => serde_json::Value::Object(
            o.iter().map(|(k, x)| (k.clone(), to_serde_value(x))).collect(),
        ),
    }
}

#[test]
fn test_export_then_parse_round_trips() {
    let records = sample_records();
    let doc = export_cumulated_results(&records);
    let text = serde_json::to_string(&to_serde_value(&doc)).expect("serialization works");
    let back = parse_cumulated_benchmark_file(&text).expect("exported records parse back");
    assert_eq!(back, records);
}
