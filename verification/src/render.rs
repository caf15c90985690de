//! The report renderer: day summaries become ANSI-coloured text lines, one
//! card per day, and an hourly block for the current day when it has
//! observations.

use vstd::prelude::*;
use crate::aggregate::{agg, day_index, find_day};
use crate::daydate::{valid_date, weekday_label, weekday_label_of};
use crate::laws::{lemma_agg, lemma_max_precip, lemma_obs_of_day_occurs, lemma_obs_of_day_subset,
    day_summarised, hours_of, obs_of_day, first_days};
use crate::model::{
    DaySummary, DayV, HourEntry, HourV, Observation, day_key, day_views, defaulted, obs_views,
    valid_obs,
};
use crate::style::{Style, ansi, ansi_spec, icon, icon_spec, pick_icon, pick_icon_spec, rc,
    rc_spec, tc, tc_spec};
use crate::text::{format_percent, format_temp, pct_field_spec, str_eq, str_views,
    temp_field_spec};
use crate::aggregate::aggregate;

verus! {

pub open spec fn opt_view(t: Option<&str>) -> Option<Seq<char>> {
    match t {
        Some(s) => Some(s@),
        None => None,
    }
}

/// The label column of a day card: a fixed bold label for the current day,
/// the weekday label otherwise.
pub open spec fn day_label_spec(d: Seq<char>, today: Seq<char>) -> Seq<char> {
    if d == today {
        "\x1b[1mToday\x1b[0m     "@
    } else {
        weekday_label_of(d)
    }
}

/// One day card: label, icon, coloured low, coloured high, coloured
/// maximum precipitation percentage.
pub open spec fn card_line_spec(s: DayV, today: Seq<char>) -> Seq<char> {
    "  "@ + day_label_spec(s.day, today) + " "@ + pick_icon_spec(s.conds) + "  "@ + ansi_spec(
        tc_spec(s.lo),
    ) + temp_field_spec(s.lo) + "°"@ + ansi_spec(Style::Reset) + "  …  "@ + ansi_spec(
        tc_spec(s.hi),
    ) + temp_field_spec(s.hi) + "°"@ + ansi_spec(Style::Reset) + "  "@ + ansi_spec(
        rc_spec(s.max_rp),
    ) + pct_field_spec(s.max_rp) + "%"@ + ansi_spec(Style::Reset)
}

/// One hourly line: hour label, per-condition icon, coloured temperature,
/// coloured precipitation percentage.
pub open spec fn hour_line_spec(h: HourV) -> Seq<char> {
    "  "@ + h.hour + "  "@ + icon_spec(h.cond) + "  "@ + ansi_spec(tc_spec(h.temp))
        + temp_field_spec(h.temp) + "°"@ + ansi_spec(Style::Reset) + "  "@ + ansi_spec(
        rc_spec(h.precip),
    ) + pct_field_spec(h.precip) + "%"@ + ansi_spec(Style::Reset)
}

/// The title line: the resolved place name, or a fixed overview label when
/// no place was resolved.
pub open spec fn title_line_spec(title: Option<Seq<char>>) -> Seq<char> {
    "  "@ + ansi_spec(Style::Bold) + ansi_spec(Style::Cyan) + (match title {
        Some(t) => t,
        None => "Overview"@,
    }) + ansi_spec(Style::Reset)
}

pub open spec fn col_header_spec() -> Seq<char> {
    "  "@ + ansi_spec(Style::Dim) + "                 Temp             Rain"@ + ansi_spec(
        Style::Reset,
    )
}

pub open spec fn rule_spec() -> Seq<char> {
    "  "@ + ansi_spec(Style::Dim) + "──────────────────────────────────────"@ + ansi_spec(
        Style::Reset,
    )
}

pub open spec fn hour_header_spec() -> Seq<char> {
    "  "@ + ansi_spec(Style::Dim) + "Time         Temp   Rain"@ + ansi_spec(Style::Reset)
}

/// The hourly block: present exactly when the first summary of the current
/// day exists and carries hourly entries.
pub open spec fn hourly_block_spec(days: Seq<DayV>, today: Seq<char>) -> Seq<Seq<char>> {
    let i = day_index(days, today);
    if i >= 0 && days[i].hours.len() > 0 {
        seq![""@, hour_header_spec(), rule_spec()] + days[i].hours.map_values(
            |h: HourV| hour_line_spec(h),
        )
    } else {
        Seq::empty()
    }
}

/// The whole report: a blank line, the title, the column header, a rule,
/// one card per day in order, the hourly block, and a trailing blank line.
pub open spec fn report_spec(title: Option<Seq<char>>, days: Seq<DayV>, today: Seq<char>) -> Seq<
    Seq<char>,
> {
    seq![""@, title_line_spec(title), col_header_spec(), rule_spec()] + days.map_values(
        |s: DayV| card_line_spec(s, today),
    ) + hourly_block_spec(days, today) + seq![""@]
}

/// A summary the renderer accepts: a non-current day carries a well-formed
/// date, and no probability is negative.
pub open spec fn renderable_day(s: DayV, today: Seq<char>) -> bool {
    &&& s.day == today || valid_date(s.day)
    &&& 0 <= s.max_rp
    &&& forall|i: int| 0 <= i < s.hours.len() ==> 0 <= (#[trigger] s.hours[i]).precip
}

/// One day card.
fn card_line(s: &DaySummary, today: &str) -> (l: String)
    requires
        renderable_day(s@, today@),
    ensures
        l@ == card_line_spec(s@, today@),
{
    let mut l = String::new();
    l.append("  ");
    if str_eq(s.day.as_str(), today) {
        l.append("\x1b[1mToday\x1b[0m     ");
    } else {
        let w = weekday_label(s.day.as_str());
        match w {
            Some(lab) => l.append(lab.as_str()),
            None => {
                proof {
                    assert(false);
                }
            },
        }
    }
    l.append(" ");
    l.append(pick_icon(&s.conds));
    l.append("  ");
    l.append(ansi(tc(s.lo)));
    let flo = format_temp(s.lo);
    l.append(flo.as_str());
    l.append("°");
    l.append(ansi(Style::Reset));
    l.append("  …  ");
    l.append(ansi(tc(s.hi)));
    let fhi = format_temp(s.hi);
    l.append(fhi.as_str());
    l.append("°");
    l.append(ansi(Style::Reset));
    l.append("  ");
    l.append(ansi(rc(s.max_rp)));
    let frp = format_percent(s.max_rp);
    l.append(frp.as_str());
    l.append("%");
    l.append(ansi(Style::Reset));
    l
}

/// One hourly line.
fn hour_line(h: &HourEntry) -> (l: String)
    requires
        0 <= h@.precip,
    ensures
        l@ == hour_line_spec(h@),
{
    let mut l = String::new();
    l.append("  ");
    l.append(h.hour.as_str());
    l.append("  ");
    l.append(icon(h.condition.as_str()));
    l.append("  ");
    l.append(ansi(tc(h.temp_tenths)));
    let ft = format_temp(h.temp_tenths);
    l.append(ft.as_str());
    l.append("°");
    l.append(ansi(Style::Reset));
    l.append("  ");
    l.append(ansi(rc(h.precip_tenths)));
    let fp = format_percent(h.precip_tenths);
    l.append(fp.as_str());
    l.append("%");
    l.append(ansi(Style::Reset));
    l
}

/// The fixed lines: an empty line and the three dim header pieces.
fn blank_line() -> (l: String)
    ensures
        l@ == ""@,
{
    proof {
        reveal_strlit("");
    }
    String::new()
}

fn dim_line(body: &str) -> (l: String)
    ensures
        l@ == "  "@ + ansi_spec(Style::Dim) + body@ + ansi_spec(Style::Reset),
{
    let mut l = String::new();
    l.append("  ");
    l.append(ansi(Style::Dim));
    l.append(body);
    l.append(ansi(Style::Reset));
    l
}

/// Render the day summaries as report lines.
pub fn render(title: Option<&str>, days: &Vec<DaySummary>, today: &str) -> (lines: Vec<String>)
    requires
        forall|k: int| 0 <= k < days@.len() ==> renderable_day((#[trigger] days@[k])@, today@),
    ensures
        str_views(lines@) == report_spec(opt_view(title), day_views(days@), today@),
{
    let ghost dv = day_views(days@);
    let mut lines: Vec<String> = Vec::new();
    lines.push(blank_line());
    let mut tl = String::new();
    tl.append("  ");
    tl.append(ansi(Style::Bold));
    tl.append(ansi(Style::Cyan));
    match title {
        Some(t) => tl.append(t),
        None => tl.append("Overview"),
    }
    tl.append(ansi(Style::Reset));
    lines.push(tl);
    lines.push(dim_line("                 Temp             Rain"));
    lines.push(dim_line("──────────────────────────────────────"));
    let ghost header = seq![""@, title_line_spec(opt_view(title)), col_header_spec(), rule_spec()];
    proof {
        assert(str_views(lines@) =~= header + dv.take(0).map_values(
            |s: DayV| card_line_spec(s, today@),
        ));
    }
    let mut k: usize = 0;
    while k < days.len()
        invariant
            k <= days@.len(),
            dv == day_views(days@),
            forall|j: int| 0 <= j < days@.len() ==> renderable_day((#[trigger] days@[j])@, today@),
            header == seq![
                ""@,
                title_line_spec(opt_view(title)),
                col_header_spec(),
                rule_spec(),
            ],
            str_views(lines@) == header + dv.take(k as int).map_values(
                |s: DayV| card_line_spec(s, today@),
            ),
        decreases days@.len() - k,
    {
        proof {
            assert(dv[k as int] == days@[k as int]@);
        }
        let l = card_line(&days[k], today);
        let ghost prev = lines@;
        lines.push(l);
        proof {
            assert(str_views(lines@) =~= str_views(prev).push(l@));
            assert(dv.take(k as int + 1) =~= dv.take(k as int).push(dv[k as int]));
            assert(dv.take(k as int + 1).map_values(|s: DayV| card_line_spec(s, today@)) =~= dv.take(
                k as int,
            ).map_values(|s: DayV| card_line_spec(s, today@)).push(
                card_line_spec(dv[k as int], today@),
            ));
            assert(str_views(lines@) =~= header + dv.take(k as int + 1).map_values(
                |s: DayV| card_line_spec(s, today@),
            ));
        }
        k += 1;
    }
    proof {
        assert(dv.take(days@.len() as int) =~= dv);
    }
    let ghost cards = dv.map_values(|s: DayV| card_line_spec(s, today@));
    match find_day(days, today) {
        Some(j) => {
            if days[j].hours.len() > 0 {
                let ghost prev = lines@;
                lines.push(blank_line());
                lines.push(dim_line("Time         Temp   Rain"));
                lines.push(dim_line("──────────────────────────────────────"));
                let ghost hv = dv[j as int].hours;
                proof {
                    assert(str_views(lines@) =~= str_views(prev) + seq![
                        ""@,
                        hour_header_spec(),
                        rule_spec(),
                    ]);
                    assert(str_views(lines@) =~= header + cards + seq![
                        ""@,
                        hour_header_spec(),
                        rule_spec(),
                    ] + hv.take(0).map_values(|h: HourV| hour_line_spec(h)));
                }
                proof {
                    assert(dv[j as int] == days@[j as int]@);
                }
                let hrs = &days[j].hours;
                let mut m: usize = 0;
                while m < hrs.len()
                    invariant
                        m <= hrs@.len(),
                        hv == hrs@.map_values(|h: HourEntry| h@),
                        forall|i: int| 0 <= i < hv.len() ==> 0 <= (#[trigger] hv[i]).precip,
                        str_views(lines@) == header + cards + seq![
                            ""@,
                            hour_header_spec(),
                            rule_spec(),
                        ] + hv.take(m as int).map_values(|h: HourV| hour_line_spec(h)),
                        header == seq![
                            ""@,
                            title_line_spec(opt_view(title)),
                            col_header_spec(),
                            rule_spec(),
                        ],
                    decreases hrs@.len() - m,
                {
                    proof {
                        assert(hv[m as int] == hrs@[m as int]@);
                    }
                    let l = hour_line(&hrs[m]);
                    let ghost prev = lines@;
                    lines.push(l);
                    proof {
                        assert(str_views(lines@) =~= str_views(prev).push(l@));
                        assert(hv.take(m as int + 1) =~= hv.take(m as int).push(hv[m as int]));
                        assert(hv.take(m as int + 1).map_values(|h: HourV| hour_line_spec(h))
                            =~= hv.take(m as int).map_values(|h: HourV| hour_line_spec(h)).push(
                            hour_line_spec(hv[m as int]),
                        ));
                        assert(str_views(lines@) =~= header + cards + seq![
                            ""@,
                            hour_header_spec(),
                            rule_spec(),
                        ] + hv.take(m as int + 1).map_values(|h: HourV| hour_line_spec(h)));
                    }
                    m += 1;
                }
                proof {
                    assert(hv.take(hv.len() as int) =~= hv);
                    assert(hourly_block_spec(dv, today@) == seq![
                        ""@,
                        hour_header_spec(),
                        rule_spec(),
                    ] + hv.map_values(|h: HourV| hour_line_spec(h)));
                }
            } else {
                proof {
                    assert(dv[j as int] == days@[j as int]@);
                    assert(dv[j as int].hours.len() == 0);
                    assert(hourly_block_spec(dv, today@) =~= Seq::<Seq<char>>::empty());
                }
            }
        },
        None => {
            proof {
                assert(hourly_block_spec(dv, today@) =~= Seq::<Seq<char>>::empty());
            }
        },
    }
    let ghost prev = lines@;
    lines.push(blank_line());
    proof {
        assert(str_views(lines@) =~= str_views(prev).push(""@));
        assert(str_views(lines@) =~= report_spec(opt_view(title), dv, today@));
    }
    lines
}

/// The hourly block of a rendered report is present exactly when some
/// observation is dated today.
pub proof fn lemma_hourly_block(obs: Seq<crate::model::ObsV>, today: Seq<char>)
    ensures
        hourly_block_spec(agg(obs, today), today).len() > 0 <==> (exists|i: int|
            0 <= i < obs.len() && day_key(#[trigger] obs[i].timestamp) == today),
{
    let days = agg(obs, today);
    lemma_agg(obs, today);
    crate::laws::lemma_first_days_distinct(obs);
    crate::aggregate::lemma_day_index(days, today);
    crate::laws::lemma_hourly(obs, today);
    let di = day_index(days, today);
    let dmap = days.map_values(|s: DayV| s.day);
    assert(forall|k: int| 0 <= k < days.len() ==> dmap[k] == (#[trigger] days[k]).day);
    if di >= 0 && days[di].hours.len() > 0 {
        assert(days[di].day == today);
    }
    if exists|k: int|
        0 <= k < days.len() && (#[trigger] days[k]).day == today && days[k].hours.len() > 0 {
        let k = choose|k: int|
            0 <= k < days.len() && (#[trigger] days[k]).day == today && days[k].hours.len() > 0;
        assert(days[k].day == today);
        assert(di >= 0);
        if di != k {
            assert(dmap[di] == dmap[k]);
            assert(crate::laws::all_distinct(dmap));
            if di < k {
                assert(dmap[di] != dmap[k]);
            } else {
                assert(dmap[k] != dmap[di]);
            }
        }
        assert(days[di].hours.len() > 0);
    }
}

/// The whole pipeline: aggregate the observations, then render the report.
pub fn report(title: Option<&str>, observations: &Vec<Observation>, today: &str) -> (lines: Vec<
    String,
>)
    requires
        forall|i: int| 0 <= i < observations@.len() ==> valid_obs((#[trigger] observations@[i])@),
        forall|i: int|
            0 <= i < observations@.len() ==> day_key((#[trigger] observations@[i])@.timestamp)
                == today@ || valid_date(day_key(observations@[i]@.timestamp)),
    ensures
        str_views(lines@) == report_spec(
            opt_view(title),
            agg(obs_views(observations@), today@),
            today@,
        ),
{
    let days = aggregate(observations, today);
    proof {
        let ov = obs_views(observations@);
        let dv = day_views(days@);
        lemma_agg(ov, today@);
        assert(forall|i: int| 0 <= i < ov.len() ==> valid_obs(#[trigger] ov[i]));
        assert forall|k: int| 0 <= k < days@.len() implies renderable_day(
            (#[trigger] days@[k])@,
            today@,
        ) by {
            let s = dv[k];
            assert(day_summarised(ov, today@, s));
            lemma_max_precip(ov, today@, k);
            let od = obs_of_day(ov, s.day);
            // the day key comes from some observation, so it is well-formed
            lemma_obs_of_day_occurs(ov, s.day);
            assert(first_days(ov).contains(s.day)) by {
                assert(agg(ov, today@).map_values(|x: DayV| x.day)[k] == s.day);
            }
            assert(od.len() > 0);
            let w = choose|i: int| 0 <= i < ov.len() && day_key(#[trigger] ov[i].timestamp)
                == s.day;
            assert(ov[w] == observations@[w]@);
            assert(s.day == today@ || valid_date(s.day));
            // every hourly probability is a defaulted input probability
            if s.day == today@ {
                assert(s.hours == hours_of(od));
                lemma_obs_of_day_subset(ov, s.day);
                assert forall|i: int| 0 <= i < s.hours.len() implies 0 <= (
                #[trigger] s.hours[i]).precip by {
                    assert(s.hours[i].precip == defaulted(od[i].precip));
                    let q = choose|q: int| 0 <= q < ov.len() && ov[q] == od[i];
                    assert(valid_obs(od[i]));
                }
            }
        }
    }
    render(title, &days, today)
}

} // verus!
