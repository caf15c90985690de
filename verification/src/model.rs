//! The data carried through the pipeline: hourly observations coming in,
//! per-day summaries going out, and the views that the contracts speak of.

use vstd::prelude::*;
use crate::text::str_views;

verus! {

/// One hourly weather observation. The timestamp carries the date in its
/// first ten characters and the clock in characters eleven to sixteen.
/// Temperatures are tenths of a degree Celsius, precipitation probabilities
/// tenths of a percent; a missing probability is `None`.
pub struct Observation {
    pub timestamp: String,
    pub temp_tenths: i64,
    pub precip_tenths: Option<i64>,
    pub condition: String,
}

/// The mathematical value of an observation.
#[verifier::ext_equal]
pub ghost struct ObsV {
    pub timestamp: Seq<char>,
    pub temp: int,
    pub precip: Option<int>,
    pub cond: Seq<char>,
}

impl View for Observation {
    type V = ObsV;

    open spec fn view(&self) -> ObsV {
        ObsV {
            timestamp: self.timestamp@,
            temp: self.temp_tenths as int,
            precip: match self.precip_tenths {
                Some(p) => Some(p as int),
                None => None,
            },
            cond: self.condition@,
        }
    }
}

/// One displayed hour of the current day.
pub struct HourEntry {
    pub hour: String,
    pub temp_tenths: i64,
    pub precip_tenths: i64,
    pub condition: String,
}

/// The mathematical value of an hourly entry.
#[verifier::ext_equal]
pub ghost struct HourV {
    pub hour: Seq<char>,
    pub temp: int,
    pub precip: int,
    pub cond: Seq<char>,
}

impl View for HourEntry {
    type V = HourV;

    open spec fn view(&self) -> HourV {
        HourV {
            hour: self.hour@,
            temp: self.temp_tenths as int,
            precip: self.precip_tenths as int,
            cond: self.condition@,
        }
    }
}

/// The summary of one calendar day: running high, low and maximum
/// precipitation probability, the distinct non-dry conditions in order of
/// first occurrence, and, only for the current day, the hourly entries.
pub struct DaySummary {
    pub day: String,
    pub hi: i64,
    pub lo: i64,
    pub max_rp: i64,
    pub conds: Vec<String>,
    pub hours: Vec<HourEntry>,
}

/// The mathematical value of a day summary.
#[verifier::ext_equal]
pub ghost struct DayV {
    pub day: Seq<char>,
    pub hi: int,
    pub lo: int,
    pub max_rp: int,
    pub conds: Seq<Seq<char>>,
    pub hours: Seq<HourV>,
}

impl View for DaySummary {
    type V = DayV;

    open spec fn view(&self) -> DayV {
        DayV {
            day: self.day@,
            hi: self.hi as int,
            lo: self.lo as int,
            max_rp: self.max_rp as int,
            conds: str_views(self.conds@),
            hours: self.hours@.map_values(|h: HourEntry| h@),
        }
    }
}

pub open spec fn obs_views(s: Seq<Observation>) -> Seq<ObsV> {
    s.map_values(|o: Observation| o@)
}

pub open spec fn day_views(s: Seq<DaySummary>) -> Seq<DayV> {
    s.map_values(|d: DaySummary| d@)
}

/// The date part of a timestamp: its first ten characters.
pub open spec fn day_key(ts: Seq<char>) -> Seq<char> {
    ts.subrange(0, 10)
}

/// The clock part of a timestamp: characters eleven to sixteen.
pub open spec fn hour_label(ts: Seq<char>) -> Seq<char> {
    ts.subrange(11, 16)
}

/// The date part of a timestamp.
pub fn day_key_of(ts: &str) -> (r: &str)
    requires
        ts@.len() >= 16,
    ensures
        r@ == day_key(ts@),
{
    ts.substring_char(0, 10)
}

/// The clock part of a timestamp.
pub fn hour_label_of(ts: &str) -> (r: &str)
    requires
        ts@.len() >= 16,
    ensures
        r@ == hour_label(ts@),
{
    ts.substring_char(11, 16)
}

/// The label of the default condition category.
pub open spec fn dry() -> Seq<char> {
    "dry"@
}

/// A missing precipitation probability counts as zero.
pub open spec fn defaulted(p: Option<int>) -> int {
    match p {
        Some(v) => v,
        None => 0,
    }
}

/// An observation the pipeline accepts: the timestamp is long enough to
/// carry a date and an hour, and a present probability lies between 0 and
/// 100 percent.
pub open spec fn valid_obs(o: ObsV) -> bool {
    &&& o.timestamp.len() >= 16
    &&& i64::MIN <= o.temp <= i64::MAX
    &&& match o.precip {
        Some(v) => 0 <= v <= 1000,
        None => true,
    }
}

} // verus!
