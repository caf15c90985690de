//! What the aggregation guarantees, stated directly and proved: the running
//! high and low are the true extremes of each day's temperatures, the
//! maximum precipitation probability is the true maximum of the defaulted
//! values, the distinct conditions carry no duplicates and never the dry
//! label, days appear in order of first occurrence, and only the current
//! day carries hourly entries.

use vstd::prelude::*;
use crate::aggregate::{agg, day_index, fresh_day, lemma_day_index, step, upd};
use crate::model::{DayV, HourV, ObsV, day_key, defaulted, dry, hour_label, valid_obs};

verus! {

/// The observations of day `d`, in their original order.
pub open spec fn obs_of_day(obs: Seq<ObsV>, d: Seq<char>) -> Seq<ObsV> {
    obs.filter(|o: ObsV| day_key(o.timestamp) == d)
}

/// The distinct day keys of the observations, each at its first occurrence.
pub open spec fn first_days(obs: Seq<ObsV>) -> Seq<Seq<char>>
    decreases obs.len(),
{
    if obs.len() == 0 {
        Seq::empty()
    } else {
        let p = first_days(obs.drop_last());
        let d = day_key(obs.last().timestamp);
        if p.contains(d) {
            p
        } else {
            p.push(d)
        }
    }
}

/// The highest temperature, folded from the low sentinel.
pub open spec fn fold_hi(s: Seq<ObsV>) -> int
    decreases s.len(),
{
    if s.len() == 0 {
        i64::MIN as int
    } else {
        let m = fold_hi(s.drop_last());
        if s.last().temp > m {
            s.last().temp
        } else {
            m
        }
    }
}

/// The lowest temperature, folded from the high sentinel.
pub open spec fn fold_lo(s: Seq<ObsV>) -> int
    decreases s.len(),
{
    if s.len() == 0 {
        i64::MAX as int
    } else {
        let m = fold_lo(s.drop_last());
        if s.last().temp < m {
            s.last().temp
        } else {
            m
        }
    }
}

/// The largest defaulted precipitation probability, folded from zero.
pub open spec fn fold_rp(s: Seq<ObsV>) -> int
    decreases s.len(),
{
    if s.len() == 0 {
        0
    } else {
        let m = fold_rp(s.drop_last());
        if defaulted(s.last().precip) > m {
            defaulted(s.last().precip)
        } else {
            m
        }
    }
}

/// The distinct condition labels other than the dry label, each at its
/// first occurrence.
pub open spec fn distinct_conds(s: Seq<ObsV>) -> Seq<Seq<char>>
    decreases s.len(),
{
    if s.len() == 0 {
        Seq::empty()
    } else {
        let p = distinct_conds(s.drop_last());
        let c = s.last().cond;
        if c != dry() && !p.contains(c) {
            p.push(c)
        } else {
            p
        }
    }
}

/// The hourly entries of a day's observations, in order.
pub open spec fn hours_of(s: Seq<ObsV>) -> Seq<HourV> {
    s.map_values(
        |o: ObsV|
            HourV {
                hour: hour_label(o.timestamp),
                temp: o.temp,
                precip: defaulted(o.precip),
                cond: o.cond,
            },
    )
}

/// What one summary of the aggregation is, stated over its day's
/// observations directly.
pub open spec fn day_summarised(obs: Seq<ObsV>, today: Seq<char>, s: DayV) -> bool {
    let od = obs_of_day(obs, s.day);
    &&& od.len() > 0
    &&& s.hi == fold_hi(od)
    &&& s.lo == fold_lo(od)
    &&& s.max_rp == fold_rp(od)
    &&& s.conds == distinct_conds(od)
    &&& s.hours == if s.day == today {
        hours_of(od)
    } else {
        Seq::<HourV>::empty()
    }
}

proof fn lemma_obs_of_day_push(s: Seq<ObsV>, x: ObsV, d: Seq<char>)
    ensures
        obs_of_day(s.push(x), d) == if day_key(x.timestamp) == d {
            obs_of_day(s, d).push(x)
        } else {
            obs_of_day(s, d)
        },
{
    reveal(Seq::filter);
    assert(s.push(x).drop_last() =~= s);
    assert(s.push(x).last() == x);
}

/// A sequence with no repeated element.
pub open spec fn all_distinct<A>(s: Seq<A>) -> bool {
    forall|i: int, j: int| 0 <= i < j < s.len() ==> s[i] != s[j]
}

proof fn lemma_distinct_push<A>(s: Seq<A>, x: A)
    requires
        all_distinct(s),
        !s.contains(x),
    ensures
        all_distinct(s.push(x)),
{
    assert forall|i: int, j: int| 0 <= i < j < s.push(x).len() implies s.push(x)[i] != s.push(
        x,
    )[j] by {
        if j == s.len() {
            assert(s[i] == s.push(x)[i]);
            if s[i] == x {
                assert(s.contains(x));
            }
        }
    }
}

/// The first-occurrence day keys are pairwise distinct.
pub proof fn lemma_first_days_distinct(obs: Seq<ObsV>)
    ensures
        all_distinct(first_days(obs)),
    decreases obs.len(),
{
    if obs.len() > 0 {
        lemma_first_days_distinct(obs.drop_last());
        let p = first_days(obs.drop_last());
        let d = day_key(obs.last().timestamp);
        if !p.contains(d) {
            lemma_distinct_push(p, d);
        }
    }
}

/// The distinct conditions of a day carry no duplicate and never the dry
/// label.
pub proof fn lemma_distinct_conds(s: Seq<ObsV>)
    ensures
        all_distinct(distinct_conds(s)),
        !distinct_conds(s).contains(dry()),
    decreases s.len(),
{
    if s.len() > 0 {
        lemma_distinct_conds(s.drop_last());
        let p = distinct_conds(s.drop_last());
        let c = s.last().cond;
        if c != dry() && !p.contains(c) {
            lemma_distinct_push(p, c);
            assert forall|i: int|
                0 <= i < p.push(c).len() implies p.push(c)[i] != dry() by {
                if i < p.len() {
                    if p[i] == dry() {
                        assert(p.contains(dry()));
                    }
                }
            }
            if p.push(c).contains(dry()) {
                let w = choose|i: int| 0 <= i < p.push(c).len() && p.push(c)[i] == dry();
                assert(p.push(c)[w] != dry());
            }
        } else {
            if distinct_conds(s).contains(dry()) {
                assert(p.contains(dry()));
            }
        }
    }
}

/// The folded high is attained and bounds every temperature of the day.
pub proof fn lemma_fold_hi(s: Seq<ObsV>)
    requires
        s.len() > 0,
        forall|i: int| 0 <= i < s.len() ==> i64::MIN <= #[trigger] s[i].temp <= i64::MAX,
    ensures
        forall|i: int| 0 <= i < s.len() ==> #[trigger] s[i].temp <= fold_hi(s),
        exists|i: int| 0 <= i < s.len() && #[trigger] s[i].temp == fold_hi(s),
    decreases s.len(),
{
    if s.len() == 1 {
        assert(s.drop_last().len() == 0);
        assert(fold_hi(s.drop_last()) == i64::MIN as int);
        assert(s.last() == s[0]);
        assert(s[0].temp == fold_hi(s));
    } else {
        lemma_fold_hi(s.drop_last());
        let p = s.drop_last();
        assert(forall|i: int| 0 <= i < p.len() ==> p[i] == s[i]);
        if s.last().temp > fold_hi(p) {
            assert(s[s.len() - 1].temp == fold_hi(s));
        } else {
            let w = choose|i: int| 0 <= i < p.len() && #[trigger] p[i].temp == fold_hi(p);
            assert(s[w].temp == fold_hi(s));
        }
    }
}

/// The folded low is attained and bounds every temperature of the day.
pub proof fn lemma_fold_lo(s: Seq<ObsV>)
    requires
        s.len() > 0,
        forall|i: int| 0 <= i < s.len() ==> i64::MIN <= #[trigger] s[i].temp <= i64::MAX,
    ensures
        forall|i: int| 0 <= i < s.len() ==> #[trigger] s[i].temp >= fold_lo(s),
        exists|i: int| 0 <= i < s.len() && #[trigger] s[i].temp == fold_lo(s),
    decreases s.len(),
{
    if s.len() == 1 {
        assert(s.drop_last().len() == 0);
        assert(fold_lo(s.drop_last()) == i64::MAX as int);
        assert(s.last() == s[0]);
        assert(s[0].temp == fold_lo(s));
    } else {
        lemma_fold_lo(s.drop_last());
        let p = s.drop_last();
        assert(forall|i: int| 0 <= i < p.len() ==> p[i] == s[i]);
        if s.last().temp < fold_lo(p) {
            assert(s[s.len() - 1].temp == fold_lo(s));
        } else {
            let w = choose|i: int| 0 <= i < p.len() && #[trigger] p[i].temp == fold_lo(p);
            assert(s[w].temp == fold_lo(s));
        }
    }
}

/// With every defaulted probability between 0 and 100 percent, the folded
/// maximum is attained, bounds them all, and lies in the same range.
pub proof fn lemma_fold_rp(s: Seq<ObsV>)
    requires
        s.len() > 0,
        forall|i: int| 0 <= i < s.len() ==> 0 <= #[trigger] defaulted(s[i].precip) <= 1000,
    ensures
        0 <= fold_rp(s) <= 1000,
        forall|i: int| 0 <= i < s.len() ==> #[trigger] defaulted(s[i].precip) <= fold_rp(s),
        exists|i: int| 0 <= i < s.len() && #[trigger] defaulted(s[i].precip) == fold_rp(s),
    decreases s.len(),
{
    if s.len() == 1 {
        assert(defaulted(s[0].precip) == fold_rp(s));
    } else {
        let p = s.drop_last();
        assert(forall|i: int| 0 <= i < p.len() ==> p[i] == s[i]);
        lemma_fold_rp(p);
        if defaulted(s.last().precip) > fold_rp(p) {
            assert(defaulted(s[s.len() - 1].precip) == fold_rp(s));
        } else {
            let w = choose|i: int|
                0 <= i < p.len() && #[trigger] defaulted(p[i].precip) == fold_rp(p);
            assert(defaulted(s[w].precip) == fold_rp(s));
        }
    }
}

/// A day has observations exactly when one of the input observations
/// carries its key.
pub proof fn lemma_obs_of_day_occurs(obs: Seq<ObsV>, d: Seq<char>)
    ensures
        obs_of_day(obs, d).len() > 0 <==> exists|i: int|
            0 <= i < obs.len() && day_key(#[trigger] obs[i].timestamp) == d,
    decreases obs.len(),
{
    reveal(Seq::filter);
    if obs.len() == 0 {
    } else {
        let p = obs.drop_last();
        lemma_obs_of_day_occurs(p, d);
        lemma_obs_of_day_push(p, obs.last(), d);
        assert(p.push(obs.last()) =~= obs);
        assert(forall|i: int| 0 <= i < p.len() ==> p[i] == obs[i]);
        if day_key(obs.last().timestamp) == d {
            assert(day_key(obs[obs.len() - 1].timestamp) == d);
        } else {
            if obs_of_day(obs, d).len() > 0 {
                let w = choose|i: int|
                    0 <= i < p.len() && day_key(#[trigger] p[i].timestamp) == d;
                assert(day_key(obs[w].timestamp) == d);
            }
            if exists|i: int| 0 <= i < obs.len() && day_key(#[trigger] obs[i].timestamp) == d {
                let w = choose|i: int|
                    0 <= i < obs.len() && day_key(#[trigger] obs[i].timestamp) == d;
                assert(w < p.len());
                assert(day_key(p[w].timestamp) == d);
            }
        }
    }
}

/// Every observation of a day is one of the input observations.
pub proof fn lemma_obs_of_day_subset(obs: Seq<ObsV>, d: Seq<char>)
    ensures
        forall|k: int|
            0 <= k < obs_of_day(obs, d).len() ==> obs.contains(#[trigger] obs_of_day(obs, d)[k]),
    decreases obs.len(),
{
    if obs.len() == 0 {
        reveal(Seq::filter);
    } else {
        let p = obs.drop_last();
        lemma_obs_of_day_subset(p, d);
        lemma_obs_of_day_push(p, obs.last(), d);
        assert(p.push(obs.last()) =~= obs);
        assert(forall|i: int| 0 <= i < p.len() ==> p[i] == obs[i]);
        let od = obs_of_day(obs, d);
        let odp = obs_of_day(p, d);
        assert forall|k: int| 0 <= k < od.len() implies obs.contains(od[k]) by {
            if k < odp.len() {
                assert(od[k] == odp[k]);
                let w = choose|i: int| 0 <= i < p.len() && p[i] == odp[k];
                assert(obs[w] == od[k]);
            } else {
                assert(od[k] == obs.last());
                assert(obs[obs.len() - 1] == od[k]);
            }
        }
    }
}

/// The main induction: every summary produced by the aggregation is
/// described by `day_summarised`, the summaries stand in first-occurrence
/// day order, and a day occurs in the output exactly when it has an
/// observation.
pub proof fn lemma_agg(obs: Seq<ObsV>, today: Seq<char>)
    ensures
        agg(obs, today).map_values(|s: DayV| s.day) == first_days(obs),
        forall|k: int|
            0 <= k < agg(obs, today).len() ==> day_summarised(
                obs,
                today,
                #[trigger] agg(obs, today)[k],
            ),
        forall|dd: Seq<char>|
            #[trigger] obs_of_day(obs, dd).len() > 0 <==> first_days(obs).contains(dd),
    decreases obs.len(),
{
    reveal(Seq::filter);
    if obs.len() == 0 {
        assert(agg(obs, today) =~= Seq::<DayV>::empty());
        assert(agg(obs, today).map_values(|s: DayV| s.day) =~= Seq::<Seq<char>>::empty());
        assert(first_days(obs) =~= Seq::<Seq<char>>::empty());
        assert forall|dd: Seq<char>| !(#[trigger] obs_of_day(obs, dd).len() > 0) by {
            assert(obs_of_day(obs, dd) =~= Seq::<ObsV>::empty());
        }
        assert forall|dd: Seq<char>| !first_days(obs).contains(dd) by {}
    } else {
        let prev = obs.drop_last();
        let o = obs.last();
        let d = day_key(o.timestamp);
        lemma_agg(prev, today);
        lemma_first_days_distinct(prev);
        let pdays = agg(prev, today);
        let days = agg(obs, today);
        assert(days == step(pdays, o, today));
        lemma_day_index(pdays, d);
        let di = day_index(pdays, d);
        assert(prev.push(o) =~= obs);
        assert forall|dd: Seq<char>|
            #[trigger] obs_of_day(obs, dd) == (if dd == d {
                obs_of_day(prev, dd).push(o)
            } else {
                obs_of_day(prev, dd)
            }) by {
            lemma_obs_of_day_push(prev, o, dd);
        }
        let pmap = pdays.map_values(|s: DayV| s.day);
        assert(pmap == first_days(prev));
        assert(forall|k: int| 0 <= k < pdays.len() ==> pmap[k] == #[trigger] pdays[k].day);
        if di >= 0 {
            let sold = pdays[di];
            let snew = upd(sold, o, today);
            assert(days == pdays.update(di, snew));
            assert(sold.day == d);
            assert(pmap[di] == d);
            assert(first_days(prev).contains(d));
            assert(first_days(obs) == first_days(prev));
            assert(days.map_values(|s: DayV| s.day) =~= pmap);
            // every summary is still described
            assert forall|k: int|
                0 <= k < days.len() implies day_summarised(obs, today, #[trigger] days[k]) by {
                if k != di {
                    assert(days[k] == pdays[k]);
                    assert(day_summarised(prev, today, pdays[k]));
                    assert(pmap[k] != pmap[di]);
                    assert(pdays[k].day != d);
                    assert(obs_of_day(obs, pdays[k].day) == obs_of_day(prev, pdays[k].day));
                } else {
                    let od = obs_of_day(prev, d);
                    let odn = obs_of_day(obs, d);
                    assert(odn == od.push(o));
                    assert(day_summarised(prev, today, sold));
                    assert(odn.drop_last() =~= od);
                    assert(odn.last() == o);
                    assert(snew.hi == fold_hi(odn));
                    assert(snew.lo == fold_lo(odn));
                    assert(snew.max_rp == fold_rp(odn));
                    assert(snew.conds == distinct_conds(odn));
                    if d == today {
                        assert(hours_of(odn) =~= hours_of(od).push(
                            HourV {
                                hour: hour_label(o.timestamp),
                                temp: o.temp,
                                precip: defaulted(o.precip),
                                cond: o.cond,
                            },
                        ));
                        assert(snew.hours == hours_of(odn));
                    } else {
                        assert(snew.hours =~= Seq::<HourV>::empty());
                    }
                }
            }
            // occurrence
            assert forall|dd: Seq<char>|
                #[trigger] obs_of_day(obs, dd).len() > 0 <==> first_days(obs).contains(dd) by {
                if dd == d {
                    assert(obs_of_day(obs, d).len() > 0);
                } else {
                    assert(obs_of_day(obs, dd) == obs_of_day(prev, dd));
                }
            }
        } else {
            let snew = upd(fresh_day(d), o, today);
            assert(days == pdays.push(snew));
            // the day is genuinely new
            if first_days(prev).contains(d) {
                let w = choose|k: int| 0 <= k < pmap.len() && pmap[k] == d;
                assert(pdays[w].day == d);
            }
            assert(!first_days(prev).contains(d));
            assert(first_days(obs) == first_days(prev).push(d));
            assert(snew.day == d);
            assert(days.map_values(|s: DayV| s.day) =~= pmap.push(d));
            // the new day had no observation before
            assert(!(obs_of_day(prev, d).len() > 0));
            let odp = obs_of_day(prev, d);
            let od1 = obs_of_day(obs, d);
            assert(od1 == odp.push(o));
            assert(od1.len() == 1);
            assert(odp.len() == 0);
            assert(fold_hi(odp) == i64::MIN as int);
            assert(fold_lo(odp) == i64::MAX as int);
            assert(fold_rp(odp) == 0);
            assert(distinct_conds(odp) =~= Seq::<Seq<char>>::empty());
            assert(hours_of(odp) =~= Seq::<HourV>::empty());
            assert(od1.drop_last() =~= odp);
            assert(od1.last() == o);
            assert forall|k: int|
                0 <= k < days.len() implies day_summarised(obs, today, #[trigger] days[k]) by {
                if k < pdays.len() {
                    assert(days[k] == pdays[k]);
                    assert(day_summarised(prev, today, pdays[k]));
                    assert(pmap[k] == pdays[k].day);
                    if pdays[k].day == d {
                        assert(first_days(prev).contains(d));
                    }
                    assert(obs_of_day(obs, pdays[k].day) == obs_of_day(prev, pdays[k].day));
                } else {
                    assert(days[k] == snew);
                    assert(fold_hi(od1) == snew.hi);
                    assert(fold_lo(od1) == snew.lo);
                    assert(fold_rp(od1) == snew.max_rp);
                    assert(distinct_conds(od1) =~= snew.conds);
                    if d == today {
                        assert(hours_of(od1) =~= Seq::<HourV>::empty().push(
                            HourV {
                                hour: hour_label(o.timestamp),
                                temp: o.temp,
                                precip: defaulted(o.precip),
                                cond: o.cond,
                            },
                        ));
                        assert(snew.hours == hours_of(od1));
                    } else {
                        assert(snew.hours =~= Seq::<HourV>::empty());
                    }
                }
            }
            assert forall|dd: Seq<char>|
                #[trigger] obs_of_day(obs, dd).len() > 0 <==> first_days(obs).contains(dd) by {
                if dd == d {
                    assert(obs_of_day(obs, d).len() > 0);
                    assert(first_days(obs)[first_days(obs).len() - 1] == d);
                } else {
                    assert(obs_of_day(obs, dd) == obs_of_day(prev, dd));
                    if first_days(obs).contains(dd) {
                        let w = choose|k: int|
                            0 <= k < first_days(obs).len() && first_days(obs)[k] == dd;
                        assert(w < first_days(prev).len());
                        assert(first_days(prev)[w] == dd);
                        assert(first_days(prev).contains(dd));
                    }
                    if first_days(prev).contains(dd) {
                        let w = choose|k: int|
                            0 <= k < first_days(prev).len() && first_days(prev)[k] == dd;
                        assert(first_days(obs)[w] == dd);
                    }
                }
            }
        }
    }
}


/// Days are published in first-occurrence order: the sequence of day keys
/// of the aggregation equals the distinct day keys of the input, each at
/// its first occurrence, and no day appears twice.
pub proof fn lemma_day_order(obs: Seq<ObsV>, today: Seq<char>)
    ensures
        agg(obs, today).map_values(|s: DayV| s.day) == first_days(obs),
        all_distinct(agg(obs, today).map_values(|s: DayV| s.day)),
{
    lemma_agg(obs, today);
    lemma_first_days_distinct(obs);
}

/// For every summary, the high and the low are the true maximum and
/// minimum of its day's temperatures: each bounds them all, each is
/// attained, and the high is never below the low.
pub proof fn lemma_high_low(obs: Seq<ObsV>, today: Seq<char>, k: int)
    requires
        forall|i: int| 0 <= i < obs.len() ==> valid_obs(#[trigger] obs[i]),
        0 <= k < agg(obs, today).len(),
    ensures
        obs_of_day(obs, agg(obs, today)[k].day).len() > 0,
        forall|i: int|
            0 <= i < obs_of_day(obs, agg(obs, today)[k].day).len() ==> #[trigger] obs_of_day(
                obs,
                agg(obs, today)[k].day,
            )[i].temp <= agg(obs, today)[k].hi,
        exists|i: int|
            0 <= i < obs_of_day(obs, agg(obs, today)[k].day).len() && #[trigger] obs_of_day(
                obs,
                agg(obs, today)[k].day,
            )[i].temp == agg(obs, today)[k].hi,
        forall|i: int|
            0 <= i < obs_of_day(obs, agg(obs, today)[k].day).len() ==> #[trigger] obs_of_day(
                obs,
                agg(obs, today)[k].day,
            )[i].temp >= agg(obs, today)[k].lo,
        exists|i: int|
            0 <= i < obs_of_day(obs, agg(obs, today)[k].day).len() && #[trigger] obs_of_day(
                obs,
                agg(obs, today)[k].day,
            )[i].temp == agg(obs, today)[k].lo,
        agg(obs, today)[k].hi >= agg(obs, today)[k].lo,
{
    lemma_agg(obs, today);
    let s = agg(obs, today)[k];
    let od = obs_of_day(obs, s.day);
    lemma_obs_of_day_subset(obs, s.day);
    assert forall|i: int| 0 <= i < od.len() implies i64::MIN <= #[trigger] od[i].temp
        <= i64::MAX by {
        let w = choose|j: int| 0 <= j < obs.len() && obs[j] == od[i];
        assert(valid_obs(obs[w]));
    }
    lemma_fold_hi(od);
    lemma_fold_lo(od);
    let wh = choose|i: int| 0 <= i < od.len() && #[trigger] od[i].temp == fold_hi(od);
    assert(od[wh].temp >= fold_lo(od));
}

/// For every summary, the maximum precipitation probability is the true
/// maximum of its day's defaulted probabilities, and lies between 0 and
/// 100 percent.
pub proof fn lemma_max_precip(obs: Seq<ObsV>, today: Seq<char>, k: int)
    requires
        forall|i: int| 0 <= i < obs.len() ==> valid_obs(#[trigger] obs[i]),
        0 <= k < agg(obs, today).len(),
    ensures
        0 <= agg(obs, today)[k].max_rp <= 1000,
        forall|i: int|
            0 <= i < obs_of_day(obs, agg(obs, today)[k].day).len() ==> defaulted(
                #[trigger] obs_of_day(obs, agg(obs, today)[k].day)[i].precip,
            ) <= agg(obs, today)[k].max_rp,
        exists|i: int|
            0 <= i < obs_of_day(obs, agg(obs, today)[k].day).len() && defaulted(
                #[trigger] obs_of_day(obs, agg(obs, today)[k].day)[i].precip,
            ) == agg(obs, today)[k].max_rp,
{
    lemma_agg(obs, today);
    let s = agg(obs, today)[k];
    let od = obs_of_day(obs, s.day);
    lemma_obs_of_day_subset(obs, s.day);
    assert forall|i: int| 0 <= i < od.len() implies 0 <= #[trigger] defaulted(od[i].precip)
        <= 1000 by {
        let w = choose|j: int| 0 <= j < obs.len() && obs[j] == od[i];
        assert(valid_obs(obs[w]));
    }
    lemma_fold_rp(od);
}

/// For every summary, the distinct conditions hold no duplicate and never
/// the dry label, however often the input repeats a condition.
pub proof fn lemma_conditions(obs: Seq<ObsV>, today: Seq<char>, k: int)
    requires
        0 <= k < agg(obs, today).len(),
    ensures
        all_distinct(agg(obs, today)[k].conds),
        !agg(obs, today)[k].conds.contains(dry()),
{
    lemma_agg(obs, today);
    lemma_distinct_conds(obs_of_day(obs, agg(obs, today)[k].day));
}

/// A summary of the current day with hourly entries exists exactly when
/// some observation is dated today, and no other summary carries hourly
/// entries at all.
pub proof fn lemma_hourly(obs: Seq<ObsV>, today: Seq<char>)
    ensures
        forall|k: int|
            0 <= k < agg(obs, today).len() && (#[trigger] agg(obs, today)[k]).day != today
                ==> agg(obs, today)[k].hours.len() == 0,
        (exists|k: int|
            0 <= k < agg(obs, today).len() && (#[trigger] agg(obs, today)[k]).day == today && agg(
                obs,
                today,
            )[k].hours.len() > 0) <==> (exists|i: int|
            0 <= i < obs.len() && day_key(#[trigger] obs[i].timestamp) == today),
{
    lemma_agg(obs, today);
    lemma_obs_of_day_occurs(obs, today);
    let days = agg(obs, today);
    let dmap = days.map_values(|s: DayV| s.day);
    if exists|k: int|
        0 <= k < days.len() && (#[trigger] days[k]).day == today && days[k].hours.len() > 0 {
        let k = choose|k: int|
            0 <= k < days.len() && (#[trigger] days[k]).day == today && days[k].hours.len() > 0;
        assert(day_summarised(obs, today, days[k]));
        assert(obs_of_day(obs, today).len() > 0);
    }
    if exists|i: int| 0 <= i < obs.len() && day_key(#[trigger] obs[i].timestamp) == today {
        assert(obs_of_day(obs, today).len() > 0);
        assert(first_days(obs).contains(today));
        let w = choose|k: int| 0 <= k < dmap.len() && dmap[k] == today;
        assert(days[w].day == today);
        assert(day_summarised(obs, today, days[w]));
        assert(days[w].hours.len() == obs_of_day(obs, today).len());
    }
}

} // verus!
