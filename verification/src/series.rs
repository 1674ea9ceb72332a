//! Grouping benchmark measurements into plot traces.
//!
//! A time-series plot draws one trace per `executable_benchmark` pair. The
//! points arrive one record at a time; each is appended to the trace named
//! by its key, and a first point under a new key opens a new trace. Trace
//! order is first-appearance order, and each trace keeps its points in
//! arrival order. The drawing itself is the plotting layer's work; the
//! grouping is verified here.

use vstd::prelude::*;

use crate::units::ConvertedTime;

verus! {

/// One plottable measurement: the trace it belongs to, its x-axis label,
/// its exactly converted time, and the tag shown with it.
#[derive(Clone, Debug)]
pub struct SeriesPoint {
    pub trace: String,
    pub label: String,
    pub time: ConvertedTime,
    pub tag: String,
}

/// One plot trace: its name and its points' labels, times and tags, kept
/// in arrival order.
#[derive(Clone, Debug)]
pub struct Trace {
    pub name: String,
    pub labels: Vec<String>,
    pub times: Vec<ConvertedTime>,
    pub tags: Vec<String>,
}

/// The mathematical value of a [`SeriesPoint`].
pub ghost struct PointView {
    pub trace: Seq<char>,
    pub label: Seq<char>,
    pub time: ConvertedTime,
    pub tag: Seq<char>,
}

/// The mathematical value of a [`Trace`].
pub ghost struct TraceView {
    pub name: Seq<char>,
    pub labels: Seq<Seq<char>>,
    pub times: Seq<ConvertedTime>,
    pub tags: Seq<Seq<char>>,
}

impl View for SeriesPoint {
    type V = PointView;

    open spec fn view(&self) -> PointView {
        PointView { trace: self.trace@, label: self.label@, time: self.time, tag: self.tag@ }
    }
}

impl View for Trace {
    type V = TraceView;

    open spec fn view(&self) -> TraceView {
        TraceView {
            name: self.name@,
            labels: Seq::new(self.labels@.len(), |i: int| self.labels@[i]@),
            times: self.times@,
            tags: Seq::new(self.tags@.len(), |i: int| self.tags@[i]@),
        }
    }
}

/// The views of a list of points.
pub open spec fn views_of_points(s: Seq<SeriesPoint>) -> Seq<PointView> {
    Seq::new(s.len(), |i: int| s[i]@)
}

/// The views of a list of traces.
pub open spec fn views_of_traces(s: Seq<Trace>) -> Seq<TraceView> {
    Seq::new(s.len(), |i: int| s[i]@)
}

/// The first trace carrying `name`, if one is open already.
pub open spec fn trace_index(traces: Seq<TraceView>, name: Seq<char>) -> Option<int>
    decreases traces.len(),
{
    if traces.len() == 0 {
        None
    } else if traces[0].name == name {
        Some(0)
    } else {
        match trace_index(traces.drop_first(), name) {
            None => None,
            Some(i) => Some(i + 1),
        }
    }
}

/// A trace with one more point.
pub open spec fn trace_with_point(t: TraceView, p: PointView) -> TraceView {
    TraceView {
        name: t.name,
        labels: t.labels.push(p.label),
        times: t.times.push(p.time),
        tags: t.tags.push(p.tag),
    }
}

/// A fresh trace holding one point.
pub open spec fn trace_of_point(p: PointView) -> TraceView {
    TraceView {
        name: p.trace,
        labels: seq![p.label],
        times: seq![p.time],
        tags: seq![p.tag],
    }
}

/// The traces after one more point arrived: appended to its named trace, or
/// opening a new trace at the end.
pub open spec fn add_point(traces: Seq<TraceView>, p: PointView) -> Seq<TraceView> {
    match trace_index(traces, p.trace) {
        None => traces.push(trace_of_point(p)),
        Some(i) => traces.update(i, trace_with_point(traces[i], p)),
    }
}

/// The traces a list of points groups into.
pub open spec fn group_spec(points: Seq<PointView>) -> Seq<TraceView>
    decreases points.len(),
{
    if points.len() == 0 {
        Seq::empty()
    } else {
        add_point(group_spec(points.drop_last()), points.last())
    }
}

proof fn lemma_trace_index_found(traces: Seq<TraceView>, name: Seq<char>, i: int)
    requires
        0 <= i < traces.len(),
        traces[i].name == name,
        forall|j: int| 0 <= j < i ==> traces[j].name != name,
    ensures
        trace_index(traces, name) == Some(i),
    decreases i,
{
    if i > 0 {
        lemma_trace_index_found(traces.drop_first(), name, i - 1);
    }
}

proof fn lemma_trace_index_missing(traces: Seq<TraceView>, name: Seq<char>)
    requires
        forall|j: int| 0 <= j < traces.len() ==> traces[j].name != name,
    ensures
        trace_index(traces, name) is None,
    decreases traces.len(),
{
    if traces.len() > 0 {
        lemma_trace_index_missing(traces.drop_first(), name);
    }
}

/// Groups points into traces: one trace per name in first-appearance order,
/// each trace's points in arrival order.
pub fn group_into_traces(points: &Vec<SeriesPoint>) -> (r: Vec<Trace>)
    ensures
        views_of_traces(r@) == group_spec(views_of_points(points@)),
{
    let ghost model = views_of_points(points@);
    let mut traces: Vec<Trace> = Vec::new();
    let n = points.len();
    let mut i: usize = 0;
    proof {
        assert(model.take(0) =~= Seq::<PointView>::empty());
        assert(views_of_traces(traces@) =~= group_spec(model.take(0)));
    }
    while i < n
        invariant
            0 <= i <= n,
            n == points@.len(),
            model == views_of_points(points@),
            views_of_traces(traces@) == group_spec(model.take(i as int)),
        decreases n - i,
    {
        let point = &points[i];
        proof {
            assert(model.take(i + 1).drop_last() =~= model.take(i as int));
            assert(model.take(i + 1).last() == model[i as int]);
            assert(model[i as int] == points@[i as int]@);
        }
        let ghost pre = views_of_traces(traces@);
        let ghost before_vec = traces@;
        let m = traces.len();
        let mut k: usize = 0;
        let mut found: Option<usize> = None;
        while k < m
            invariant_except_break
                found is None,
            invariant
                0 <= k <= m,
                m == traces@.len(),
                before_vec == traces@,
                pre == views_of_traces(traces@),
                forall|j: int| 0 <= j < k ==> pre[j].name != point.trace@,
            ensures
                found is None ==> forall|j: int| 0 <= j < m ==> pre[j].name != point.trace@,
                found matches Some(f) ==> 0 <= f < m && pre[f as int].name == point.trace@ && (
                forall|j: int| 0 <= j < f ==> pre[j].name != point.trace@),
            decreases m - k,
        {
            proof {
                assert(pre[k as int] == traces@[k as int]@);
            }
            if crate::text::str_eq(traces[k].name.as_str(), point.trace.as_str()) {
                found = Some(k);
                break;
            }
            k += 1;
        }
        match found {
            Some(f) => {
                proof {
                    lemma_trace_index_found(pre, point.trace@, f as int);
                }
                let mut t = traces.remove(f);
                let ghost t0 = t@;
                t.labels.push(point.label.clone());
                t.times.push(point.time);
                t.tags.push(point.tag.clone());
                let ghost grown = trace_with_point(t0, model[i as int]);
                proof {
                    assert(t0 == pre[f as int]);
                    assert(t@.labels =~= grown.labels);
                    assert(t@.times =~= grown.times);
                    assert(t@.tags =~= grown.tags);
                    assert(t@ == grown);
                }
                let ghost tv = t;
                traces.insert(f, t);
                proof {
                    assert(traces@ =~= before_vec.update(f as int, tv));
                    assert(views_of_traces(traces@) =~= pre.update(f as int, grown));
                }
            },
            None => {
                proof {
                    assert(pre.len() == traces@.len());
                    lemma_trace_index_missing(pre, point.trace@);
                }
                let t = Trace {
                    name: point.trace.clone(),
                    labels: vec![point.label.clone()],
                    times: vec![point.time],
                    tags: vec![point.tag.clone()],
                };
                let ghost fresh = trace_of_point(model[i as int]);
                proof {
                    assert(t@.labels =~= fresh.labels);
                    assert(t@.times =~= fresh.times);
                    assert(t@.tags =~= fresh.tags);
                    assert(t@ == fresh);
                }
                traces.push(t);
                proof {
                    assert(views_of_traces(traces@) =~= pre.push(fresh));
                }
            },
        }
        i += 1;
    }
    proof {
        assert(model.take(n as int) =~= model);
    }
    traces
}

/// The name of a plot trace: the producing executable and the benchmark,
/// joined as the time-series plots label their traces.
pub fn series_trace_name(exe: &str, benchmark: &str) -> (r: String)
    ensures
        r@ == exe@ + "_"@ + benchmark@,
{
    let mut r = exe.to_owned();
    r.append("_");
    r.append(benchmark);
    r
}

} // verus!
