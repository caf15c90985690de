//! The forecast aggregator: a flat, timestamp-ordered sequence of hourly
//! observations is folded into one summary per distinct day, in order of
//! each day's first occurrence.

use vstd::prelude::*;
use crate::model::{
    DaySummary, DayV, HourEntry, HourV, Observation, ObsV, day_key, day_key_of, day_views,
    defaulted, dry, hour_label, hour_label_of, obs_views, valid_obs,
};
use crate::text::{contains_str, str_eq, str_views};

verus! {

/// The summary of day `d` before any observation of it is folded in:
/// extreme sentinels for the running high and low, probability zero.
pub open spec fn fresh_day(d: Seq<char>) -> DayV {
    DayV {
        day: d,
        hi: i64::MIN as int,
        lo: i64::MAX as int,
        max_rp: 0,
        conds: Seq::empty(),
        hours: Seq::empty(),
    }
}

/// One observation folded into the summary of its own day.
pub open spec fn upd(s: DayV, o: ObsV, today: Seq<char>) -> DayV {
    let t = o.temp;
    let rp = defaulted(o.precip);
    DayV {
        day: s.day,
        hi: if t > s.hi {
            t
        } else {
            s.hi
        },
        lo: if t < s.lo {
            t
        } else {
            s.lo
        },
        max_rp: if rp > s.max_rp {
            rp
        } else {
            s.max_rp
        },
        conds: if o.cond != dry() && !s.conds.contains(o.cond) {
            s.conds.push(o.cond)
        } else {
            s.conds
        },
        hours: if day_key(o.timestamp) == today {
            s.hours.push(HourV { hour: hour_label(o.timestamp), temp: t, precip: rp, cond: o.cond })
        } else {
            s.hours
        },
    }
}

/// The index of the first summary of day `d`, or -1 when there is none.
pub open spec fn day_index(days: Seq<DayV>, d: Seq<char>) -> int
    decreases days.len(),
{
    if days.len() == 0 {
        -1
    } else if days[0].day == d {
        0
    } else {
        let r = day_index(days.drop_first(), d);
        if r == -1 {
            -1
        } else {
            r + 1
        }
    }
}

pub proof fn lemma_day_index(days: Seq<DayV>, d: Seq<char>)
    ensures
        -1 <= day_index(days, d) < days.len(),
        day_index(days, d) == -1 ==> forall|i: int|
            0 <= i < days.len() ==> days[i].day != d,
        day_index(days, d) >= 0 ==> days[day_index(days, d)].day == d && forall|i: int|
            0 <= i < day_index(days, d) ==> days[i].day != d,
    decreases days.len(),
{
    if days.len() == 0 {
    } else if days[0].day == d {
    } else {
        let rest = days.drop_first();
        lemma_day_index(rest, d);
        let r = day_index(rest, d);
        if r == -1 {
            assert forall|i: int| 0 <= i < days.len() implies days[i].day != d by {
                if i > 0 {
                    assert(rest[i - 1] == days[i]);
                }
            }
        } else {
            assert(days[r + 1] == rest[r]);
            assert forall|i: int| 0 <= i < r + 1 implies days[i].day != d by {
                if i > 0 {
                    assert(rest[i - 1] == days[i]);
                }
            }
        }
    }
}

/// One observation folded into the day list: into its day's summary where
/// one exists, else into a fresh summary appended at the end.
pub open spec fn step(days: Seq<DayV>, o: ObsV, today: Seq<char>) -> Seq<DayV> {
    let d = day_key(o.timestamp);
    let i = day_index(days, d);
    if i >= 0 {
        days.update(i, upd(days[i], o, today))
    } else {
        days.push(upd(fresh_day(d), o, today))
    }
}

/// The whole aggregation: the per-observation update rules folded over the
/// observation sequence from the left.
pub open spec fn agg(obs: Seq<ObsV>, today: Seq<char>) -> Seq<DayV>
    decreases obs.len(),
{
    if obs.len() == 0 {
        Seq::empty()
    } else {
        step(agg(obs.drop_last(), today), obs.last(), today)
    }
}

/// The index of the first summary of day `d`, or `None` when there is none.
pub(crate) fn find_day(days: &Vec<DaySummary>, d: &str) -> (r: Option<usize>)
    ensures
        match r {
            Some(j) => j < days@.len() && day_index(day_views(days@), d@) == j,
            None => day_index(day_views(days@), d@) == -1,
        },
{
    let mut j: usize = 0;
    while j < days.len()
        invariant
            j <= days@.len(),
            forall|k: int| 0 <= k < j ==> day_views(days@)[k].day != d@,
        decreases days@.len() - j,
    {
        if str_eq(days[j].day.as_str(), d) {
            proof {
                let dv = day_views(days@);
                assert(dv[j as int].day == d@);
                lemma_day_index(dv, d@);
                let di = day_index(dv, d@);
                if di == -1 {
                    assert(dv[j as int].day != d@);
                }
                if di < j {
                    assert(dv[di].day != d@);
                }
                if di > j {
                    assert(dv[j as int].day != d@);
                }
            }
            return Some(j);
        }
        j += 1;
    }
    proof {
        let dv = day_views(days@);
        lemma_day_index(dv, d@);
        if day_index(dv, d@) >= 0 {
            assert(dv[day_index(dv, d@)].day != d@);
        }
    }
    None
}

/// Fold one observation into the summary of its day.
fn apply_obs(s: &mut DaySummary, o: &Observation, today: &str)
    requires
        valid_obs(o@),
    ensures
        final(s)@ == upd(old(s)@, o@, today@),
{
    let t = o.temp_tenths;
    let rp: i64 = match o.precip_tenths {
        Some(p) => p,
        None => 0,
    };
    if t > s.hi {
        s.hi = t;
    }
    if t < s.lo {
        s.lo = t;
    }
    if rp > s.max_rp {
        s.max_rp = rp;
    }
    if !str_eq(o.condition.as_str(), "dry") && !contains_str(&s.conds, o.condition.as_str()) {
        s.conds.push(o.condition.clone());
        proof {
            assert(str_views(s.conds@) =~= str_views(old(s).conds@).push(o.condition@));
        }
    }
    let dk = day_key_of(o.timestamp.as_str());
    if str_eq(dk, today) {
        let h = HourEntry {
            hour: String::from_str(hour_label_of(o.timestamp.as_str())),
            temp_tenths: t,
            precip_tenths: rp,
            condition: o.condition.clone(),
        };
        s.hours.push(h);
        proof {
            assert(s.hours@.map_values(|x: HourEntry| x@) =~= old(
                s,
            ).hours@.map_values(|x: HourEntry| x@).push(
                HourV {
                    hour: hour_label(o@.timestamp),
                    temp: o@.temp,
                    precip: defaulted(o@.precip),
                    cond: o@.cond,
                },
            ));
        }
    }
    proof {
        assert(s@ =~= upd(old(s)@, o@, today@));
    }
}

/// Aggregate the observations into per-day summaries: first-seen day order,
/// running high, low and maximum precipitation probability, the distinct
/// non-dry conditions, and, for the day equal to `today`, the hourly tuples
/// in arrival order.
pub fn aggregate(observations: &Vec<Observation>, today: &str) -> (days: Vec<DaySummary>)
    requires
        forall|i: int| 0 <= i < observations@.len() ==> valid_obs(#[trigger] observations@[i]@),
    ensures
        day_views(days@) == agg(obs_views(observations@), today@),
{
    let mut days: Vec<DaySummary> = Vec::new();
    let mut i: usize = 0;
    while i < observations.len()
        invariant
            i <= observations@.len(),
            forall|k: int| 0 <= k < observations@.len() ==> valid_obs(#[trigger] observations@[k]@),
            day_views(days@) == agg(obs_views(observations@).take(i as int), today@),
        decreases observations@.len() - i,
    {
        let o = &observations[i];
        proof {
            let all = obs_views(observations@);
            assert(all[i as int] == o@);
            assert(all.take(i as int + 1).drop_last() =~= all.take(i as int));
            assert(all.take(i as int + 1).last() == o@);
            assert(agg(all.take(i as int + 1), today@) == step(
                agg(all.take(i as int), today@),
                o@,
                today@,
            ));
        }
        let dkey = day_key_of(o.timestamp.as_str());
        match find_day(&days, dkey) {
            Some(j) => {
                let ghost before = day_views(days@);
                let s = &mut days[j];
                apply_obs(s, o, today);
                proof {
                    assert(day_views(days@) =~= before.update(
                        j as int,
                        upd(before[j as int], o@, today@),
                    ));
                }
            },
            None => {
                let ghost before = day_views(days@);
                let fresh = DaySummary {
                    day: String::from_str(dkey),
                    hi: i64::MIN,
                    lo: i64::MAX,
                    max_rp: 0,
                    conds: Vec::new(),
                    hours: Vec::new(),
                };
                proof {
                    assert(fresh@ =~= fresh_day(day_key(o@.timestamp)));
                }
                days.push(fresh);
                let n = days.len() - 1;
                let s = &mut days[n];
                apply_obs(s, o, today);
                proof {
                    assert(day_views(days@) =~= before.push(
                        upd(fresh_day(day_key(o@.timestamp)), o@, today@),
                    ));
                }
            },
        }
        i += 1;
    }
    proof {
        assert(obs_views(observations@).take(observations@.len() as int) =~= obs_views(
            observations@,
        ));
    }
    days
}

} // verus!
