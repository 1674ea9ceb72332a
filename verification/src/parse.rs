//! The benchmark result data model and the reading of benchmark output
//! documents.
//!
//! A benchmark executable writes one JSON document per invocation, with a
//! `context` object describing the machine and an array of `benchmarks`
//! measurements. Exported per-commit files hold an array of such records,
//! each annotated with the commit it was captured under. Both are decoded
//! here from the parsed [`JsonVal`] model, with exact contracts over the
//! corresponding spec-level decoders.

use vstd::prelude::*;

use crate::json::{
    json_of, json_lookup, json_parse, json_view, json_view_pairs, json_view_seq,
    lemma_obj_lookup_found, JsonData, JsonVal,
};
use crate::units::{unit_from_chars, TimeUnit};

verus! {

/// Why a benchmark document was rejected.
#[derive(Clone, Copy, PartialEq, Eq, Structural, Debug)]
pub enum ParseError {
    /// The text is not valid JSON, or an expected field is missing or of the
    /// wrong shape.
    MalformedOutput,
    /// A measurement names a time unit that is not `ns`, `us` or `ms`.
    UnsupportedTimeUnit,
}

/// The machine context a benchmark run was captured in.
#[derive(Clone, PartialEq, Debug)]
pub struct BenchmarkContext {
    pub date: String,
    pub executable: String,
    pub num_cpus: i32,
    pub mhz_per_cpu: i32,
}

/// One measurement of a benchmark run. Times are carried as reported,
/// truncated to whole ticks of the reported unit.
#[derive(Clone, PartialEq, Debug)]
pub struct BenchmarkResult {
    pub name: String,
    pub iterations: i32,
    pub real_time: i64,
    pub cpu_time: i64,
    pub time_unit: Option<TimeUnit>,
}

/// One benchmark run: its context, its measurements, and the commit it was
/// captured under once tagged by the exporter.
#[derive(Clone, PartialEq, Debug)]
pub struct BenchmarkResults {
    pub context: BenchmarkContext,
    pub benchmarks: Vec<BenchmarkResult>,
    pub commit: Option<String>,
}

/// A benchmark run as stored in the time-series database, keyed by
/// executable name and tag.
#[derive(Clone, PartialEq, Debug)]
pub struct DataBaseEntry {
    pub exe_name: String,
    pub tag: String,
    pub results: BenchmarkResults,
}

/// The mathematical value of a [`BenchmarkContext`].
pub ghost struct ContextView {
    pub date: Seq<char>,
    pub executable: Seq<char>,
    pub num_cpus: int,
    pub mhz_per_cpu: int,
}

/// The mathematical value of a [`BenchmarkResult`].
pub ghost struct ResultView {
    pub name: Seq<char>,
    pub iterations: int,
    pub real_time: int,
    pub cpu_time: int,
    pub time_unit: Option<TimeUnit>,
}

/// The mathematical value of a [`BenchmarkResults`].
pub ghost struct ResultsView {
    pub context: ContextView,
    pub benchmarks: Seq<ResultView>,
    pub commit: Option<Seq<char>>,
}

impl View for BenchmarkContext {
    type V = ContextView;

    open spec fn view(&self) -> ContextView {
        ContextView {
            date: self.date@,
            executable: self.executable@,
            num_cpus: self.num_cpus as int,
            mhz_per_cpu: self.mhz_per_cpu as int,
        }
    }
}

impl View for BenchmarkResult {
    type V = ResultView;

    open spec fn view(&self) -> ResultView {
        ResultView {
            name: self.name@,
            iterations: self.iterations as int,
            real_time: self.real_time as int,
            cpu_time: self.cpu_time as int,
            time_unit: self.time_unit,
        }
    }
}

/// The views of a sequence of measurements.
pub open spec fn views_of_results(s: Seq<BenchmarkResult>) -> Seq<ResultView> {
    Seq::new(s.len(), |i: int| s[i]@)
}

/// The views of a sequence of benchmark runs.
pub open spec fn views_of_records(s: Seq<BenchmarkResults>) -> Seq<ResultsView> {
    Seq::new(s.len(), |i: int| s[i]@)
}

impl View for BenchmarkResults {
    type V = ResultsView;

    open spec fn view(&self) -> ResultsView {
        ResultsView {
            context: self.context@,
            benchmarks: views_of_results(self.benchmarks@),
            commit: match self.commit {
                Some(c) => Some(c@),
                None => None,
            },
        }
    }
}

/// The context named by a JSON value: an object carrying `date`,
/// `executable`, `num_cpus` and `mhz_per_cpu` of the right shapes.
pub open spec fn context_from_json(j: JsonData) -> Result<ContextView, ParseError> {
    match (
        json_lookup(j, "date"@),
        json_lookup(j, "executable"@),
        json_lookup(j, "num_cpus"@),
        json_lookup(j, "mhz_per_cpu"@),
    ) {
        (
            Some(JsonData::Str(date)),
            Some(JsonData::Str(executable)),
            Some(JsonData::Num(num_cpus)),
            Some(JsonData::Num(mhz_per_cpu)),
        ) => {
            if i32::MIN <= num_cpus <= i32::MAX && i32::MIN <= mhz_per_cpu <= i32::MAX {
                Ok(ContextView { date, executable, num_cpus, mhz_per_cpu })
            } else {
                Err(ParseError::MalformedOutput)
            }
        },
        _ => Err(ParseError::MalformedOutput),
    }
}

/// The optional time unit of a measurement object: absent or `null` means
/// none was reported; a string must name a supported unit.
pub open spec fn time_unit_from_json(u: Option<JsonData>) -> Result<
    Option<TimeUnit>,
    ParseError,
> {
    match u {
        None => Ok(None),
        Some(JsonData::Null) => Ok(None),
        Some(JsonData::Str(s)) => match unit_from_chars(s) {
            Some(unit) => Ok(Some(unit)),
            None => Err(ParseError::UnsupportedTimeUnit),
        },
        Some(_) => Err(ParseError::MalformedOutput),
    }
}

/// The measurement named by a JSON value: an object carrying `name`,
/// `iterations`, `real_time`, `cpu_time` and an optional `time_unit`.
pub open spec fn result_from_json(j: JsonData) -> Result<ResultView, ParseError> {
    match (
        json_lookup(j, "name"@),
        json_lookup(j, "iterations"@),
        json_lookup(j, "real_time"@),
        json_lookup(j, "cpu_time"@),
    ) {
        (
            Some(JsonData::Str(name)),
            Some(JsonData::Num(iterations)),
            Some(JsonData::Num(real_time)),
            Some(JsonData::Num(cpu_time)),
        ) => {
            if i32::MIN <= iterations <= i32::MAX {
                match time_unit_from_json(json_lookup(j, "time_unit"@)) {
                    Ok(time_unit) => Ok(
                        ResultView { name, iterations, real_time, cpu_time, time_unit },
                    ),
                    Err(e) => Err(e),
                }
            } else {
                Err(ParseError::MalformedOutput)
            }
        },
        _ => Err(ParseError::MalformedOutput),
    }
}

/// Decodes one measurement object.
pub fn benchmark_result_from_json(j: &JsonVal) -> (r: Result<BenchmarkResult, ParseError>)
    ensures
        match r {
            Ok(v) => result_from_json(j@) == Ok::<ResultView, ParseError>(v@),
            Err(e) => result_from_json(j@) == Err::<ResultView, ParseError>(e),
        },
{
    let name: String = match j.get("name") {
        Some(JsonVal::Str(s)) => s.clone(),
        _ => {
            return Err(ParseError::MalformedOutput);
        },
    };
    let iterations_raw: i64 = match j.get("iterations") {
        Some(JsonVal::Num(n)) => *n,
        _ => {
            return Err(ParseError::MalformedOutput);
        },
    };
    let real_time: i64 = match j.get("real_time") {
        Some(JsonVal::Num(n)) => *n,
        _ => {
            return Err(ParseError::MalformedOutput);
        },
    };
    let cpu_time: i64 = match j.get("cpu_time") {
        Some(JsonVal::Num(n)) => *n,
        _ => {
            return Err(ParseError::MalformedOutput);
        },
    };
    if iterations_raw < i32::MIN as i64 || iterations_raw > i32::MAX as i64 {
        return Err(ParseError::MalformedOutput);
    }
    let iterations: i32 = iterations_raw as i32;
    let time_unit: Option<TimeUnit> = match j.get("time_unit") {
        None => None,
        Some(JsonVal::Null) => None,
        Some(JsonVal::Str(s)) => match crate::units::parse_time_unit(s.as_str()) {
            Some(u) => Some(u),
            None => {
                return Err(ParseError::UnsupportedTimeUnit);
            },
        },
        Some(_) => {
            return Err(ParseError::MalformedOutput);
        },
    };
    Ok(BenchmarkResult { name, iterations, real_time, cpu_time, time_unit })
}

/// Decodes the context object of a run document.
pub fn benchmark_context_from_json(j: &JsonVal) -> (r: Result<BenchmarkContext, ParseError>)
    ensures
        match r {
            Ok(v) => context_from_json(j@) == Ok::<ContextView, ParseError>(v@),
            Err(e) => context_from_json(j@) == Err::<ContextView, ParseError>(e),
        },
{
    let date: String = match j.get("date") {
        Some(JsonVal::Str(s)) => s.clone(),
        _ => {
            return Err(ParseError::MalformedOutput);
        },
    };
    let executable: String = match j.get("executable") {
        Some(JsonVal::Str(s)) => s.clone(),
        _ => {
            return Err(ParseError::MalformedOutput);
        },
    };
    let num_cpus_raw: i64 = match j.get("num_cpus") {
        Some(JsonVal::Num(n)) => *n,
        _ => {
            return Err(ParseError::MalformedOutput);
        },
    };
    let mhz_raw: i64 = match j.get("mhz_per_cpu") {
        Some(JsonVal::Num(n)) => *n,
        _ => {
            return Err(ParseError::MalformedOutput);
        },
    };
    if num_cpus_raw < i32::MIN as i64 || num_cpus_raw > i32::MAX as i64 || mhz_raw < i32::MIN
        as i64 || mhz_raw > i32::MAX as i64 {
        return Err(ParseError::MalformedOutput);
    }
    Ok(
        BenchmarkContext {
            date,
            executable,
            num_cpus: num_cpus_raw as i32,
            mhz_per_cpu: mhz_raw as i32,
        },
    )
}

/// The measurements named by the elements of a `benchmarks` array, in
/// order; the first rejected element rejects the list.
pub open spec fn results_from_list(elems: Seq<JsonData>) -> Result<Seq<ResultView>, ParseError>
    decreases elems.len(),
{
    if elems.len() == 0 {
        Ok(Seq::empty())
    } else {
        match result_from_json(elems[0]) {
            Err(e) => Err(e),
            Ok(v) => match results_from_list(elems.drop_first()) {
                Err(e) => Err(e),
                Ok(rest) => Ok(seq![v] + rest),
            },
        }
    }
}

proof fn lemma_results_from_list_split(elems: Seq<JsonData>, i: int)
    requires
        0 <= i <= elems.len(),
        forall|k: int| 0 <= k < i ==> #[trigger] result_from_json(elems[k]) is Ok,
    ensures
        results_from_list(elems) == match results_from_list(elems.skip(i)) {
            Err(e) => Err(e),
            Ok(rest) => Ok(
                Seq::new(i as nat, |k: int| result_from_json(elems[k]).unwrap()) + rest,
            ),
        },
    decreases i,
{
    if i == 0 {
        assert(elems.skip(0) =~= elems);
        match results_from_list(elems) {
            Err(e) => {},
            Ok(rest) => {
                assert(Seq::new(0, |k: int| result_from_json(elems[k]).unwrap()) + rest =~= rest);
            },
        }
    } else {
        lemma_results_from_list_split(elems, i - 1);
        let tail = elems.skip(i - 1);
        assert(tail[0] == elems[i - 1]);
        assert(tail.drop_first() =~= elems.skip(i));
        let v = result_from_json(elems[i - 1]).unwrap();
        match results_from_list(elems.skip(i)) {
            Err(e) => {},
            Ok(rest) => {
                assert(Seq::new((i - 1) as nat, |k: int| result_from_json(elems[k]).unwrap()) + (
                seq![v] + rest) =~= Seq::new(i as nat, |k: int| result_from_json(elems[k]).unwrap())
                    + rest);
            },
        }
    }
}

/// Decodes a `benchmarks` array element by element.
pub fn benchmark_results_list_from_json(elems: &Vec<JsonVal>) -> (r: Result<
    Vec<BenchmarkResult>,
    ParseError,
>)
    ensures
        match r {
            Ok(v) => results_from_list(json_view_seq(elems@)) == Ok::<Seq<ResultView>, ParseError>(
                views_of_results(v@),
            ),
            Err(e) => results_from_list(json_view_seq(elems@)) == Err::<
                Seq<ResultView>,
                ParseError,
            >(e),
        },
{
    let ghost model = json_view_seq(elems@);
    let mut out: Vec<BenchmarkResult> = Vec::new();
    let n = elems.len();
    let mut i: usize = 0;
    while i < n
        invariant
            0 <= i <= n,
            n == elems.len(),
            model == json_view_seq(elems@),
            out.len() == i,
            forall|k: int|
                0 <= k < i ==> #[trigger] result_from_json(model[k]) == Ok::<
                    ResultView,
                    ParseError,
                >(out@[k]@),
        decreases n - i,
    {
        let decoded = benchmark_result_from_json(&elems[i]);
        proof {
            assert(model[i as int] == json_view(elems@[i as int]));
        }
        match decoded {
            Ok(v) => {
                out.push(v);
            },
            Err(e) => {
                proof {
                    lemma_results_from_list_split(model, i as int);
                    let tail = model.skip(i as int);
                    assert(tail[0] == model[i as int]);
                }
                return Err(e);
            },
        }
        i += 1;
    }
    proof {
        lemma_results_from_list_split(model, n as int);
        assert(model.skip(n as int) =~= Seq::<JsonData>::empty());
        assert(Seq::new(n as nat, |k: int| result_from_json(model[k]).unwrap()) + Seq::<
            ResultView,
        >::empty() =~= views_of_results(out@));
    }
    Ok(out)
}

/// The commit annotation of an exported record: absent or `null` when the
/// record has not been tagged, otherwise the commit id string.
pub open spec fn commit_from_json(c: Option<JsonData>) -> Result<Option<Seq<char>>, ParseError> {
    match c {
        None => Ok(None),
        Some(JsonData::Null) => Ok(None),
        Some(JsonData::Str(s)) => Ok(Some(s)),
        Some(_) => Err(ParseError::MalformedOutput),
    }
}

/// The benchmark run named by a JSON document: an object with a `context`
/// object, a `benchmarks` array and an optional `commit` tag.
pub open spec fn record_from_json(j: JsonData) -> Result<ResultsView, ParseError> {
    match (json_lookup(j, "context"@), json_lookup(j, "benchmarks"@)) {
        (Some(ctx), Some(JsonData::Arr(elems))) => match context_from_json(ctx) {
            Err(e) => Err(e),
            Ok(cv) => match results_from_list(elems) {
                Err(e) => Err(e),
                Ok(bs) => match commit_from_json(json_lookup(j, "commit"@)) {
                    Err(e) => Err(e),
                    Ok(c) => Ok(ResultsView { context: cv, benchmarks: bs, commit: c }),
                },
            },
        },
        _ => Err(ParseError::MalformedOutput),
    }
}

/// Decodes one benchmark run document.
pub fn benchmark_record_from_json(j: &JsonVal) -> (r: Result<BenchmarkResults, ParseError>)
    ensures
        match r {
            Ok(v) => record_from_json(j@) == Ok::<ResultsView, ParseError>(v@),
            Err(e) => record_from_json(j@) == Err::<ResultsView, ParseError>(e),
        },
{
    let context = match j.get("context") {
        Some(ctx) => match benchmark_context_from_json(ctx) {
            Ok(c) => c,
            Err(e) => {
                return Err(e);
            },
        },
        None => {
            return Err(ParseError::MalformedOutput);
        },
    };
    let benchmarks = match j.get("benchmarks") {
        Some(arr) => match arr {
            JsonVal::Arr(elems) => {
                proof {
                    assert(*arr == JsonVal::Arr(*elems));
                }
                match benchmark_results_list_from_json(elems) {
                    Ok(bs) => bs,
                    Err(e) => {
                        return Err(e);
                    },
                }
            },
            _ => {
                return Err(ParseError::MalformedOutput);
            },
        },
        None => {
            return Err(ParseError::MalformedOutput);
        },
    };
    let commit: Option<String> = match j.get("commit") {
        None => None,
        Some(JsonVal::Null) => None,
        Some(JsonVal::Str(s)) => Some(s.clone()),
        Some(_) => {
            return Err(ParseError::MalformedOutput);
        },
    };
    Ok(BenchmarkResults { context, benchmarks, commit })
}

/// What a benchmark output text means: `MalformedOutput` when it is not
/// valid JSON, otherwise the run document it parses to.
pub open spec fn parse_single_spec(s: Seq<char>) -> Result<ResultsView, ParseError> {
    match json_of(s) {
        None => Err(ParseError::MalformedOutput),
        Some(j) => record_from_json(j),
    }
}

/// Parses the output document of one benchmark invocation.
pub fn parse_single_benchmark_file(text: &str) -> (r: Result<BenchmarkResults, ParseError>)
    ensures
        match r {
            Ok(v) => parse_single_spec(text@) == Ok::<ResultsView, ParseError>(v@),
            Err(e) => parse_single_spec(text@) == Err::<ResultsView, ParseError>(e),
        },
{
    match json_parse(text) {
        None => Err(ParseError::MalformedOutput),
        Some(j) => benchmark_record_from_json(&j),
    }
}

/// The runs named by the elements of a cumulated or exported array, in
/// order; the first rejected element rejects the list.
pub open spec fn records_from_list(elems: Seq<JsonData>) -> Result<Seq<ResultsView>, ParseError>
    decreases elems.len(),
{
    if elems.len() == 0 {
        Ok(Seq::empty())
    } else {
        match record_from_json(elems[0]) {
            Err(e) => Err(e),
            Ok(v) => match records_from_list(elems.drop_first()) {
                Err(e) => Err(e),
                Ok(rest) => Ok(seq![v] + rest),
            },
        }
    }
}

proof fn lemma_records_from_list_split(elems: Seq<JsonData>, i: int)
    requires
        0 <= i <= elems.len(),
        forall|k: int| 0 <= k < i ==> #[trigger] record_from_json(elems[k]) is Ok,
    ensures
        records_from_list(elems) == match records_from_list(elems.skip(i)) {
            Err(e) => Err(e),
            Ok(rest) => Ok(
                Seq::new(i as nat, |k: int| record_from_json(elems[k]).unwrap()) + rest,
            ),
        },
    decreases i,
{
    if i == 0 {
        assert(elems.skip(0) =~= elems);
        match records_from_list(elems) {
            Err(e) => {},
            Ok(rest) => {
                assert(Seq::new(0, |k: int| record_from_json(elems[k]).unwrap()) + rest =~= rest);
            },
        }
    } else {
        lemma_records_from_list_split(elems, i - 1);
        let tail = elems.skip(i - 1);
        assert(tail[0] == elems[i - 1]);
        assert(tail.drop_first() =~= elems.skip(i));
        let v = record_from_json(elems[i - 1]).unwrap();
        match records_from_list(elems.skip(i)) {
            Err(e) => {},
            Ok(rest) => {
                assert(Seq::new((i - 1) as nat, |k: int| record_from_json(elems[k]).unwrap()) + (
                seq![v] + rest) =~= Seq::new(i as nat, |k: int| record_from_json(elems[k]).unwrap())
                    + rest);
            },
        }
    }
}

/// Decodes an array of run records element by element.
pub fn benchmark_records_from_json(elems: &Vec<JsonVal>) -> (r: Result<
    Vec<BenchmarkResults>,
    ParseError,
>)
    ensures
        match r {
            Ok(v) => records_from_list(json_view_seq(elems@)) == Ok::<Seq<ResultsView>, ParseError>(
                views_of_records(v@),
            ),
            Err(e) => records_from_list(json_view_seq(elems@)) == Err::<
                Seq<ResultsView>,
                ParseError,
            >(e),
        },
{
    let ghost model = json_view_seq(elems@);
    let mut out: Vec<BenchmarkResults> = Vec::new();
    let n = elems.len();
    let mut i: usize = 0;
    while i < n
        invariant
            0 <= i <= n,
            n == elems.len(),
            model == json_view_seq(elems@),
            out.len() == i,
            forall|k: int|
                0 <= k < i ==> #[trigger] record_from_json(model[k]) == Ok::<
                    ResultsView,
                    ParseError,
                >(out@[k]@),
        decreases n - i,
    {
        let decoded = benchmark_record_from_json(&elems[i]);
        proof {
            assert(model[i as int] == json_view(elems@[i as int]));
        }
        match decoded {
            Ok(v) => {
                out.push(v);
            },
            Err(e) => {
                proof {
                    lemma_records_from_list_split(model, i as int);
                    let tail = model.skip(i as int);
                    assert(tail[0] == model[i as int]);
                }
                return Err(e);
            },
        }
        i += 1;
    }
    proof {
        lemma_records_from_list_split(model, n as int);
        assert(model.skip(n as int) =~= Seq::<JsonData>::empty());
        assert(Seq::new(n as nat, |k: int| record_from_json(model[k]).unwrap()) + Seq::<
            ResultsView,
        >::empty() =~= views_of_records(out@));
    }
    Ok(out)
}

/// What a cumulated results text means: an array of run records.
pub open spec fn parse_cumulated_spec(s: Seq<char>) -> Result<Seq<ResultsView>, ParseError> {
    match json_of(s) {
        None => Err(ParseError::MalformedOutput),
        Some(JsonData::Arr(elems)) => records_from_list(elems),
        Some(_) => Err(ParseError::MalformedOutput),
    }
}

/// Parses a cumulated results file or a per-commit export file: a JSON
/// array of run records.
pub fn parse_cumulated_benchmark_file(text: &str) -> (r: Result<Vec<BenchmarkResults>, ParseError>)
    ensures
        match r {
            Ok(v) => parse_cumulated_spec(text@) == Ok::<Seq<ResultsView>, ParseError>(
                views_of_records(v@),
            ),
            Err(e) => parse_cumulated_spec(text@) == Err::<Seq<ResultsView>, ParseError>(e),
        },
{
    match json_parse(text) {
        None => Err(ParseError::MalformedOutput),
        Some(j) => match &j {
            JsonVal::Arr(elems) => {
                proof {
                    assert(j == JsonVal::Arr(*elems));
                }
                benchmark_records_from_json(elems)
            },
            _ => Err(ParseError::MalformedOutput),
        },
    }
}

impl ResultView {
    /// The field ranges every measurement decoded from or held in the
    /// executable data model satisfies.
    pub open spec fn wf(self) -> bool {
        &&& i32::MIN <= self.iterations <= i32::MAX
        &&& i64::MIN <= self.real_time <= i64::MAX
        &&& i64::MIN <= self.cpu_time <= i64::MAX
    }
}

impl ContextView {
    /// The field ranges every context satisfies.
    pub open spec fn wf(self) -> bool {
        &&& i32::MIN <= self.num_cpus <= i32::MAX
        &&& i32::MIN <= self.mhz_per_cpu <= i32::MAX
    }
}

impl ResultsView {
    /// The field ranges every benchmark run record satisfies.
    pub open spec fn wf(self) -> bool {
        &&& self.context.wf()
        &&& forall|i: int| 0 <= i < self.benchmarks.len() ==> (#[trigger] self.benchmarks[i]).wf()
    }
}

/// The JSON value a time unit annotation is written as: the unit's name, or
/// `null` when none was reported.
pub open spec fn unit_to_json(u: Option<TimeUnit>) -> JsonData {
    match u {
        None => JsonData::Null,
        Some(x) => JsonData::Str(crate::units::unit_chars(x)),
    }
}

/// The JSON object a measurement is written as.
pub open spec fn result_to_json(rv: ResultView) -> JsonData {
    JsonData::Obj(
        seq![
            ("name"@, JsonData::Str(rv.name)),
            ("iterations"@, JsonData::Num(rv.iterations)),
            ("real_time"@, JsonData::Num(rv.real_time)),
            ("cpu_time"@, JsonData::Num(rv.cpu_time)),
            ("time_unit"@, unit_to_json(rv.time_unit)),
        ],
    )
}

/// The JSON object a context is written as.
pub open spec fn context_to_json(cv: ContextView) -> JsonData {
    JsonData::Obj(
        seq![
            ("date"@, JsonData::Str(cv.date)),
            ("executable"@, JsonData::Str(cv.executable)),
            ("num_cpus"@, JsonData::Num(cv.num_cpus)),
            ("mhz_per_cpu"@, JsonData::Num(cv.mhz_per_cpu)),
        ],
    )
}

/// The JSON values a list of measurements is written as.
pub open spec fn results_to_json_list(s: Seq<ResultView>) -> Seq<JsonData> {
    Seq::new(s.len(), |i: int| result_to_json(s[i]))
}

/// The JSON object a benchmark run record is written as.
pub open spec fn record_to_json(rv: ResultsView) -> JsonData {
    JsonData::Obj(
        seq![
            ("context"@, context_to_json(rv.context)),
            ("benchmarks"@, JsonData::Arr(results_to_json_list(rv.benchmarks))),
            (
                "commit"@,
                match rv.commit {
                    None => JsonData::Null,
                    Some(c) => JsonData::Str(c),
                },
            ),
        ],
    )
}

/// The JSON values a list of records is written as.
pub open spec fn records_to_json_list(s: Seq<ResultsView>) -> Seq<JsonData> {
    Seq::new(s.len(), |i: int| record_to_json(s[i]))
}

/// Reading back a written measurement yields the measurement.
pub proof fn lemma_result_round_trip(rv: ResultView)
    requires
        rv.wf(),
    ensures
        result_from_json(result_to_json(rv)) == Ok::<ResultView, ParseError>(rv),
{
    reveal_strlit("name");
    reveal_strlit("iterations");
    reveal_strlit("real_time");
    reveal_strlit("cpu_time");
    reveal_strlit("time_unit");
    let pairs = result_to_json(rv)->Obj_0;
    assert("name"@.len() == 4 && "iterations"@.len() == 10 && "real_time"@.len() == 9
        && "cpu_time"@.len() == 8 && "time_unit"@.len() == 9);
    assert("real_time"@[0] == 'r' && "time_unit"@[0] == 't');
    lemma_obj_lookup_found(pairs, "name"@, 0);
    lemma_obj_lookup_found(pairs, "iterations"@, 1);
    lemma_obj_lookup_found(pairs, "real_time"@, 2);
    lemma_obj_lookup_found(pairs, "cpu_time"@, 3);
    lemma_obj_lookup_found(pairs, "time_unit"@, 4);
    match rv.time_unit {
        None => {},
        Some(u) => {
            crate::units::lemma_unit_name_round_trip(u);
        },
    }
}

/// Reading back a written context yields the context.
pub proof fn lemma_context_round_trip(cv: ContextView)
    requires
        cv.wf(),
    ensures
        context_from_json(context_to_json(cv)) == Ok::<ContextView, ParseError>(cv),
{
    reveal_strlit("date");
    reveal_strlit("executable");
    reveal_strlit("num_cpus");
    reveal_strlit("mhz_per_cpu");
    let pairs = context_to_json(cv)->Obj_0;
    assert("date"@.len() == 4 && "executable"@.len() == 10 && "num_cpus"@.len() == 8
        && "mhz_per_cpu"@.len() == 11);
    assert("date"@[0] == 'd' && "executable"@[0] == 'e');
    lemma_obj_lookup_found(pairs, "date"@, 0);
    lemma_obj_lookup_found(pairs, "executable"@, 1);
    lemma_obj_lookup_found(pairs, "num_cpus"@, 2);
    lemma_obj_lookup_found(pairs, "mhz_per_cpu"@, 3);
}

proof fn lemma_results_list_round_trip(s: Seq<ResultView>)
    requires
        forall|i: int| 0 <= i < s.len() ==> (#[trigger] s[i]).wf(),
    ensures
        results_from_list(results_to_json_list(s)) == Ok::<Seq<ResultView>, ParseError>(s),
    decreases s.len(),
{
    let elems = results_to_json_list(s);
    if s.len() == 0 {
        assert(elems =~= Seq::<JsonData>::empty());
        assert(s =~= Seq::<ResultView>::empty());
    } else {
        assert(elems[0] == result_to_json(s[0]));
        assert(s[0].wf());
        lemma_result_round_trip(s[0]);
        assert forall|i: int| 0 <= i < s.drop_first().len() implies (#[trigger] s.drop_first()[i]).wf() by {
            assert(s.drop_first()[i] == s[i + 1]);
        }
        lemma_results_list_round_trip(s.drop_first());
        assert(elems.drop_first() =~= results_to_json_list(s.drop_first()));
        assert(seq![s[0]] + s.drop_first() =~= s);
    }
}

/// Reading back a written benchmark run record yields the record.
pub proof fn lemma_record_round_trip(rv: ResultsView)
    requires
        rv.wf(),
    ensures
        record_from_json(record_to_json(rv)) == Ok::<ResultsView, ParseError>(rv),
{
    reveal_strlit("context");
    reveal_strlit("benchmarks");
    reveal_strlit("commit");
    let pairs = record_to_json(rv)->Obj_0;
    assert("context"@.len() == 7 && "benchmarks"@.len() == 10 && "commit"@.len() == 6);
    lemma_obj_lookup_found(pairs, "context"@, 0);
    lemma_obj_lookup_found(pairs, "benchmarks"@, 1);
    lemma_obj_lookup_found(pairs, "commit"@, 2);
    lemma_context_round_trip(rv.context);
    lemma_results_list_round_trip(rv.benchmarks);
}

/// Reading back a written list of records yields the records: the
/// export/parse cycle of per-commit files and of cumulated result files is
/// lossless on content.
pub proof fn lemma_records_round_trip(s: Seq<ResultsView>)
    requires
        forall|i: int| 0 <= i < s.len() ==> (#[trigger] s[i]).wf(),
    ensures
        records_from_list(records_to_json_list(s)) == Ok::<Seq<ResultsView>, ParseError>(s),
    decreases s.len(),
{
    let elems = records_to_json_list(s);
    if s.len() == 0 {
        assert(elems =~= Seq::<JsonData>::empty());
        assert(s =~= Seq::<ResultsView>::empty());
    } else {
        assert(elems[0] == record_to_json(s[0]));
        assert(s[0].wf());
        lemma_record_round_trip(s[0]);
        assert forall|i: int| 0 <= i < s.drop_first().len() implies (#[trigger] s.drop_first()[i]).wf() by {
            assert(s.drop_first()[i] == s[i + 1]);
        }
        lemma_records_round_trip(s.drop_first());
        assert(elems.drop_first() =~= records_to_json_list(s.drop_first()));
        assert(seq![s[0]] + s.drop_first() =~= s);
    }
}

fn unit_to_json_val(u: &Option<TimeUnit>) -> (r: JsonVal)
    ensures
        r@ == unit_to_json(*u),
{
    match u {
        None => JsonVal::Null,
        Some(x) => JsonVal::Str(crate::units::unit_str(*x).to_owned()),
    }
}

/// Writes one measurement as a JSON object.
fn result_to_json_val(b: &BenchmarkResult) -> (r: JsonVal)
    ensures
        r@ == result_to_json(b@),
{
    let mut pairs: Vec<(String, JsonVal)> = Vec::new();
    pairs.push(("name".to_owned(), JsonVal::Str(b.name.clone())));
    pairs.push(("iterations".to_owned(), JsonVal::Num(b.iterations as i64)));
    pairs.push(("real_time".to_owned(), JsonVal::Num(b.real_time)));
    pairs.push(("cpu_time".to_owned(), JsonVal::Num(b.cpu_time)));
    pairs.push(("time_unit".to_owned(), unit_to_json_val(&b.time_unit)));
    let ghost gp = pairs@;
    let r = JsonVal::Obj(pairs);
    proof {
        assert(gp.len() == 5);
        assert(r@ == JsonData::Obj(json_view_pairs(gp)));
        assert(json_view_pairs(gp) =~= result_to_json(b@)->Obj_0);
    }
    r
}

/// Writes a context as a JSON object.
fn context_to_json_val(c: &BenchmarkContext) -> (r: JsonVal)
    ensures
        r@ == context_to_json(c@),
{
    let mut pairs: Vec<(String, JsonVal)> = Vec::new();
    pairs.push(("date".to_owned(), JsonVal::Str(c.date.clone())));
    pairs.push(("executable".to_owned(), JsonVal::Str(c.executable.clone())));
    pairs.push(("num_cpus".to_owned(), JsonVal::Num(c.num_cpus as i64)));
    pairs.push(("mhz_per_cpu".to_owned(), JsonVal::Num(c.mhz_per_cpu as i64)));
    let ghost gp = pairs@;
    let r = JsonVal::Obj(pairs);
    proof {
        assert(gp.len() == 4);
        assert(r@ == JsonData::Obj(json_view_pairs(gp)));
        assert(json_view_pairs(gp) =~= context_to_json(c@)->Obj_0);
    }
    r
}

/// Writes one benchmark run record as a JSON object.
pub fn record_to_json_val(rec: &BenchmarkResults) -> (r: JsonVal)
    ensures
        r@ == record_to_json(rec@),
{
    let context = context_to_json_val(&rec.context);
    let mut elems: Vec<JsonVal> = Vec::new();
    let n = rec.benchmarks.len();
    let mut i: usize = 0;
    while i < n
        invariant
            0 <= i <= n,
            n == rec.benchmarks.len(),
            elems.len() == i,
            forall|k: int| 0 <= k < i ==> elems@[k]@ == result_to_json(rec.benchmarks@[k]@),
        decreases n - i,
    {
        elems.push(result_to_json_val(&rec.benchmarks[i]));
        i += 1;
    }
    proof {
        assert(json_view_seq(elems@) =~= results_to_json_list(rec@.benchmarks));
    }
    let commit_val = match &rec.commit {
        None => JsonVal::Null,
        Some(c) => JsonVal::Str(c.clone()),
    };
    let mut pairs: Vec<(String, JsonVal)> = Vec::new();
    pairs.push(("context".to_owned(), context));
    pairs.push(("benchmarks".to_owned(), JsonVal::Arr(elems)));
    pairs.push(("commit".to_owned(), commit_val));
    let ghost gp = pairs@;
    let r = JsonVal::Obj(pairs);
    proof {
        assert(gp.len() == 3);
        assert(r@ == JsonData::Obj(json_view_pairs(gp)));
        assert(json_view_pairs(gp) =~= record_to_json(rec@)->Obj_0);
    }
    r
}

/// Writes a set of benchmark run records as the JSON array a cumulated
/// results file or a per-commit export file holds.
pub fn export_cumulated_results(records: &Vec<BenchmarkResults>) -> (r: JsonVal)
    ensures
        r@ == JsonData::Arr(records_to_json_list(views_of_records(records@))),
{
    let mut elems: Vec<JsonVal> = Vec::new();
    let n = records.len();
    let mut i: usize = 0;
    while i < n
        invariant
            0 <= i <= n,
            n == records.len(),
            elems.len() == i,
            forall|k: int| 0 <= k < i ==> elems@[k]@ == record_to_json(records@[k]@),
        decreases n - i,
    {
        elems.push(record_to_json_val(&records[i]));
        i += 1;
    }
    proof {
        assert(json_view_seq(elems@) =~= records_to_json_list(views_of_records(records@)));
    }
    JsonVal::Arr(elems)
}

} // verus!
