use weather_report::style::{icon, pick_icon, rc, tc, ansi, Style};
use weather_report::text::{dec, format_percent, format_temp, pad_left};
use weather_report::geo::name_prefix;

#[test]
fn temperature_buckets_and_boundaries() {
    assert_eq!(tc(-1), Style::Blue);
    assert_eq!(tc(0), Style::Cyan);
    assert_eq!(tc(99), Style::Cyan);
    assert_eq!(tc(100), Style::Green);
    assert_eq!(tc(199), Style::Green);
    assert_eq!(tc(200), Style::Yellow);
    assert_eq!(tc(299), Style::Yellow);
    assert_eq!(tc(300), Style::Red);
}

#[test]
fn precipitation_buckets_and_boundaries() {
    assert_eq!(rc(399), Style::Dim);
    assert_eq!(rc(400), Style::Yellow);
    assert_eq!(rc(699), Style::Yellow);
    assert_eq!(rc(700), Style::Red);
    assert_eq!(rc(0), Style::Dim);
}

#[test]
fn ansi_escape_table() {
    assert_eq!(ansi(Style::Bold), "\x1b[1m");
    assert_eq!(ansi(Style::Dim), "\x1b[2m");
    assert_eq!(ansi(Style::Cyan), "\x1b[36m");
    assert_eq!(ansi(Style::Blue), "\x1b[34m");
    assert_eq!(ansi(Style::Green), "\x1b[32m");
    assert_eq!(ansi(Style::Yellow), "\x1b[33m");
    assert_eq!(ansi(Style::Red), "\x1b[31m");
    assert_eq!(ansi(Style::Reset), "\x1b[0m");
}

#[test]
fn icon_table_with_default() {
    assert_eq!(icon("thunderstorm"), "⛈️");
    assert_eq!(icon("rain"), "🌧️");
    assert_eq!(icon("snow"), "❄️");
    assert_eq!(icon("sleet"), "🌨️");
    assert_eq!(icon("hail"), "🧊");
    assert_eq!(icon("fog"), "🌫️");
    assert_eq!(icon("cloudy"), "☁️");
    assert_eq!(icon("dry"), "☀️");
    assert_eq!(icon("anything else"), "☀️");
}

#[test]
fn icon_priority_rain_beats_cloudy() {
    let conds = vec!["cloudy".to_string(), "rain".to_string()];
    assert_eq!(pick_icon(&conds), "🌧️");
    let conds = vec!["cloudy".to_string(), "rain".to_string(), "thunderstorm".to_string()];
    assert_eq!(pick_icon(&conds), "⛈️");
    let conds = vec!["cloudy".to_string()];
    assert_eq!(pick_icon(&conds), "☁️");
    let conds: Vec<String> = Vec::new();
    assert_eq!(pick_icon(&conds), "☀️");
}

#[test]
fn decimal_digits() {
    assert_eq!(dec(0), "0");
    assert_eq!(dec(7), "7");
    assert_eq!(dec(10), "10");
    assert_eq!(dec(9081), "9081");
}

#[test]
fn padding() {
    assert_eq!(pad_left("ab".to_string(), 5), "   ab");
    assert_eq!(pad_left("abcdef".to_string(), 5), "abcdef");
}

#[test]
fn temperature_field_one_decimal_five_columns() {
    assert_eq!(format_temp(-20), " -2.0");
    assert_eq!(format_temp(50), "  5.0");
    assert_eq!(format_temp(0), "  0.0");
    assert_eq!(format_temp(123), " 12.3");
    assert_eq!(format_temp(-123), "-12.3");
    assert_eq!(format_temp(1234), "123.4");
    assert_eq!(format_temp(-1234), "-123.4");
}

#[test]
fn percent_field_rounds_half_to_even() {
    assert_eq!(format_percent(800), " 80");
    assert_eq!(format_percent(1000), "100");
    assert_eq!(format_percent(0), "  0");
    assert_eq!(format_percent(50), "  5");
    assert_eq!(format_percent(255), " 26");
    assert_eq!(format_percent(245), " 24");
    assert_eq!(format_percent(246), " 25");
}

#[test]
fn display_name_prefix() {
    assert_eq!(name_prefix("Berlin, Berlin, Deutschland"), "Berlin");
    assert_eq!(name_prefix("  Oslo  , Norge"), "Oslo");
    assert_eq!(name_prefix("NoComma"), "NoComma");
    assert_eq!(name_prefix(",rest"), "");
    assert_eq!(name_prefix("   "), "");
    assert_eq!(name_prefix(""), "");
}
