//! Benchmark time units and exact unit conversion.
//!
//! Measurements are carried in the unit their producer reported (absent
//! units are read as nanoseconds). Conversion for presentation is exact:
//! a converted value is a whole part plus a remainder over the unit's
//! nanosecond denominator, so no precision is lost to rounding here.

use vstd::prelude::*;

verus! {

/// A time unit a benchmark executable may report measurements in.
#[derive(Clone, Copy, PartialEq, Eq, Structural, Debug)]
pub enum TimeUnit {
    Nanoseconds,
    Microseconds,
    Milliseconds,
}

impl TimeUnit {
    /// How many nanoseconds one tick of the unit spans.
    pub open spec fn nanos_per(self) -> nat {
        match self {
            TimeUnit::Nanoseconds => 1,
            TimeUnit::Microseconds => 1000,
            TimeUnit::Milliseconds => 1000000,
        }
    }
}

/// The unit a measurement is effectively in: a missing unit is read as
/// nanoseconds.
pub open spec fn effective_unit(unit: Option<TimeUnit>) -> TimeUnit {
    match unit {
        Some(u) => u,
        None => TimeUnit::Nanoseconds,
    }
}

/// The unit named by a string: `ns`, `us` or `ms`; anything else is not a
/// supported unit.
pub open spec fn unit_from_chars(s: Seq<char>) -> Option<TimeUnit> {
    if s == "ns"@ {
        Some(TimeUnit::Nanoseconds)
    } else if s == "us"@ {
        Some(TimeUnit::Microseconds)
    } else if s == "ms"@ {
        Some(TimeUnit::Milliseconds)
    } else {
        None
    }
}

/// The name of a unit, as benchmark output spells it.
pub open spec fn unit_chars(u: TimeUnit) -> Seq<char> {
    match u {
        TimeUnit::Nanoseconds => "ns"@,
        TimeUnit::Microseconds => "us"@,
        TimeUnit::Milliseconds => "ms"@,
    }
}

/// Reads a unit name; `None` for an unsupported unit.
pub fn parse_time_unit(s: &str) -> (r: Option<TimeUnit>)
    ensures
        r == unit_from_chars(s@),
{
    if crate::text::str_eq(s, "ns") {
        Some(TimeUnit::Nanoseconds)
    } else if crate::text::str_eq(s, "us") {
        Some(TimeUnit::Microseconds)
    } else if crate::text::str_eq(s, "ms") {
        Some(TimeUnit::Milliseconds)
    } else {
        None
    }
}

/// Writes a unit's name.
pub fn unit_str(u: TimeUnit) -> (r: &'static str)
    ensures
        r@ == unit_chars(u),
{
    match u {
        TimeUnit::Nanoseconds => "ns",
        TimeUnit::Microseconds => "us",
        TimeUnit::Milliseconds => "ms",
    }
}

/// Round trip of unit names: reading a written unit name yields the unit.
pub proof fn lemma_unit_name_round_trip(u: TimeUnit)
    ensures
        unit_from_chars(unit_chars(u)) == Some(u),
{
    reveal_strlit("ns");
    reveal_strlit("us");
    reveal_strlit("ms");
    assert("ns"@[0] == 'n' && "us"@[0] == 'u' && "ms"@[0] == 'm');
}

/// The nanoseconds a reported time spans: the reported value times the
/// effective unit's span; a missing unit is read as nanoseconds.
pub fn from_benchmark_time(time_unit: Option<TimeUnit>, time: u64) -> (nanos: u128)
    ensures
        nanos == time * effective_unit(time_unit).nanos_per(),
{
    match time_unit {
        Some(TimeUnit::Microseconds) => (time as u128) * 1000,
        Some(TimeUnit::Milliseconds) => (time as u128) * 1000000,
        Some(TimeUnit::Nanoseconds) => time as u128,
        None => time as u128,
    }
}

/// A time expressed exactly in a target unit: the value is
/// `whole + rem / den` ticks of that unit.
#[derive(Clone, Copy, PartialEq, Eq, Structural, Debug)]
pub struct ConvertedTime {
    pub whole: u128,
    pub rem: u64,
    pub den: u64,
}

/// Expresses a span of nanoseconds exactly in a target unit.
pub fn convert_time_to_unit(nanos: u128, unit: TimeUnit) -> (r: ConvertedTime)
    ensures
        r.den == unit.nanos_per(),
        r.whole == nanos / unit.nanos_per() as u128,
        r.rem == nanos % unit.nanos_per() as u128,
        r.whole * r.den + r.rem == nanos,
        r.rem < r.den,
{
    let den: u64 = match unit {
        TimeUnit::Nanoseconds => 1,
        TimeUnit::Microseconds => 1000,
        TimeUnit::Milliseconds => 1000000,
    };
    let whole = nanos / (den as u128);
    let rem = (nanos % (den as u128)) as u64;
    proof {
        assert(whole * (den as u128) + rem == nanos) by {
            vstd::arithmetic::div_mod::lemma_fundamental_div_mod(nanos as int, den as int);
        }
    }
    ConvertedTime { whole, rem, den }
}

} // verus!
