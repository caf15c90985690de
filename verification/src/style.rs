//! Colour classification and icon selection for the report.
//!
//! Temperatures are tenths of a degree Celsius, precipitation probabilities
//! tenths of a percent, so the bucket boundaries below are the specified
//! 0 / 10 / 20 / 30 degrees and 40 / 70 percent.

use vstd::prelude::*;
use crate::text::{str_views, str_eq, contains_str};

verus! {

/// The display styles used in the report, each one ANSI escape sequence.
#[derive(Clone, Copy, PartialEq, Eq, Structural, Debug)]
pub enum Style {
    Bold,
    Dim,
    Cyan,
    Blue,
    Green,
    Yellow,
    Red,
    Reset,
}

pub open spec fn ansi_spec(s: Style) -> Seq<char> {
    match s {
        Style::Bold => "\x1b[1m"@,
        Style::Dim => "\x1b[2m"@,
        Style::Cyan => "\x1b[36m"@,
        Style::Blue => "\x1b[34m"@,
        Style::Green => "\x1b[32m"@,
        Style::Yellow => "\x1b[33m"@,
        Style::Red => "\x1b[31m"@,
        Style::Reset => "\x1b[0m"@,
    }
}

/// The ANSI escape sequence of a style.
pub fn ansi(s: Style) -> (r: &'static str)
    ensures
        r@ == ansi_spec(s),
{
    match s {
        Style::Bold => "\x1b[1m",
        Style::Dim => "\x1b[2m",
        Style::Cyan => "\x1b[36m",
        Style::Blue => "\x1b[34m",
        Style::Green => "\x1b[32m",
        Style::Yellow => "\x1b[33m",
        Style::Red => "\x1b[31m",
        Style::Reset => "\x1b[0m",
    }
}

/// Temperature bucket, `t` in tenths of a degree: below 0 is the cold
/// extreme, then [0,10), [10,20), [20,30) degrees, and 30 degrees or more.
/// Lower bounds are inclusive, upper bounds exclusive.
pub open spec fn tc_spec(t: int) -> Style {
    if t < 0 {
        Style::Blue
    } else if t < 100 {
        Style::Cyan
    } else if t < 200 {
        Style::Green
    } else if t < 300 {
        Style::Yellow
    } else {
        Style::Red
    }
}

/// The colour of a temperature given in tenths of a degree Celsius.
pub fn tc(t: i64) -> (c: Style)
    ensures
        c == tc_spec(t as int),
{
    if t < 0 {
        Style::Blue
    } else if t < 100 {
        Style::Cyan
    } else if t < 200 {
        Style::Green
    } else if t < 300 {
        Style::Yellow
    } else {
        Style::Red
    }
}

/// Precipitation bucket, `p` in tenths of a percent: 70 percent or more is
/// the alert colour, [40,70) percent the caution colour, below 40 percent
/// the muted colour.
pub open spec fn rc_spec(p: int) -> Style {
    if p >= 700 {
        Style::Red
    } else if p >= 400 {
        Style::Yellow
    } else {
        Style::Dim
    }
}

/// The colour of a precipitation probability given in tenths of a percent.
pub fn rc(p: i64) -> (c: Style)
    ensures
        c == rc_spec(p as int),
{
    if p >= 700 {
        Style::Red
    } else if p >= 400 {
        Style::Yellow
    } else {
        Style::Dim
    }
}

/// The glyph of a single condition label; every label outside the fixed
/// vocabulary maps to the clear-sky glyph.
pub open spec fn icon_spec(cond: Seq<char>) -> Seq<char> {
    if cond == "thunderstorm"@ {
        "⛈️"@
    } else if cond == "rain"@ {
        "🌧️"@
    } else if cond == "snow"@ {
        "❄️"@
    } else if cond == "sleet"@ {
        "🌨️"@
    } else if cond == "hail"@ {
        "🧊"@
    } else if cond == "fog"@ {
        "🌫️"@
    } else if cond == "cloudy"@ {
        "☁️"@
    } else {
        "☀️"@
    }
}

/// The glyph of one condition label.
pub fn icon(cond: &str) -> (r: &'static str)
    ensures
        r@ == icon_spec(cond@),
{
    if str_eq(cond, "thunderstorm") {
        "⛈️"
    } else if str_eq(cond, "rain") {
        "🌧️"
    } else if str_eq(cond, "snow") {
        "❄️"
    } else if str_eq(cond, "sleet") {
        "🌨️"
    } else if str_eq(cond, "hail") {
        "🧊"
    } else if str_eq(cond, "fog") {
        "🌫️"
    } else if str_eq(cond, "cloudy") {
        "☁️"
    } else {
        "☀️"
    }
}

/// The glyph of a day: the first of thunderstorm, rain, snow, sleet, hail,
/// fog, cloudy that occurs among `conds` wins; with none of them present the
/// clear-sky glyph is used.
pub open spec fn pick_icon_spec(conds: Seq<Seq<char>>) -> Seq<char> {
    if conds.contains("thunderstorm"@) {
        icon_spec("thunderstorm"@)
    } else if conds.contains("rain"@) {
        icon_spec("rain"@)
    } else if conds.contains("snow"@) {
        icon_spec("snow"@)
    } else if conds.contains("sleet"@) {
        icon_spec("sleet"@)
    } else if conds.contains("hail"@) {
        icon_spec("hail"@)
    } else if conds.contains("fog"@) {
        icon_spec("fog"@)
    } else if conds.contains("cloudy"@) {
        icon_spec("cloudy"@)
    } else {
        icon_spec("dry"@)
    }
}

/// Icon priority: a day with a thunderstorm always shows the thunderstorm
/// glyph, and a day with rain but no thunderstorm always shows the rain
/// glyph — in particular a day with both cloudy and rain shows the rain
/// glyph, never the cloudy one.
pub proof fn lemma_icon_priority(conds: Seq<Seq<char>>)
    ensures
        conds.contains("thunderstorm"@) ==> pick_icon_spec(conds) == icon_spec("thunderstorm"@),
        !conds.contains("thunderstorm"@) && conds.contains("rain"@) ==> pick_icon_spec(conds)
            == icon_spec("rain"@),
{
}

/// The glyph of a day with the given distinct conditions.
pub fn pick_icon(conds: &Vec<String>) -> (r: &'static str)
    ensures
        r@ == pick_icon_spec(str_views(conds@)),
{
    if contains_str(conds, "thunderstorm") {
        icon("thunderstorm")
    } else if contains_str(conds, "rain") {
        icon("rain")
    } else if contains_str(conds, "snow") {
        icon("snow")
    } else if contains_str(conds, "sleet") {
        icon("sleet")
    } else if contains_str(conds, "hail") {
        icon("hail")
    } else if contains_str(conds, "fog") {
        icon("fog")
    } else if contains_str(conds, "cloudy") {
        icon("cloudy")
    } else {
        icon("dry")
    }
}

} // verus!
