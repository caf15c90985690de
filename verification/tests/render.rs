use weather_report::model::Observation;
use weather_report::render::report;

fn obs(ts: &str, temp_tenths: i64, precip_tenths: Option<i64>, cond: &str) -> Observation {
    Observation {
        timestamp: ts.to_string(),
        temp_tenths,
        precip_tenths,
        condition: cond.to_string(),
    }
}

#[test]
fn end_to_end_single_day_report() {
    let input = vec![
        obs("2024-05-01T00:00", -20, Some(100), "clear"),
        obs("2024-05-01T12:00", 50, Some(800), "rain"),
    ];
    let lines = report(Some("Berlin"), &input, "2024-05-01");
    // blank, title, column header, rule, one card, blank, hourly header,
    // rule, two hourly lines, trailing blank
    assert_eq!(lines.len(), 11);
    assert_eq!(lines[0], "");
    assert_eq!(lines[1], "  \x1b[1m\x1b[36mBerlin\x1b[0m");
    assert_eq!(lines[2], "  \x1b[2m                 Temp             Rain\x1b[0m");
    assert_eq!(lines[3], "  \x1b[2m──────────────────────────────────────\x1b[0m");
    // the card: bold Today label, rain icon, blue low, cyan high, red percent
    assert_eq!(
        lines[4],
        "  \x1b[1mToday\x1b[0m      🌧️  \x1b[34m -2.0°\x1b[0m  …  \x1b[36m  5.0°\x1b[0m  \x1b[31m 80%\x1b[0m"
    );
    assert_eq!(lines[5], "");
    assert_eq!(lines[6], "  \x1b[2mTime         Temp   Rain\x1b[0m");
    assert_eq!(lines[7], "  \x1b[2m──────────────────────────────────────\x1b[0m");
    assert_eq!(
        lines[8],
        "  00:00  ☀️  \x1b[34m -2.0°\x1b[0m  \x1b[2m 10%\x1b[0m"
    );
    assert_eq!(
        lines[9],
        "  12:00  🌧️  \x1b[36m  5.0°\x1b[0m  \x1b[31m 80%\x1b[0m"
    );
    assert_eq!(lines[10], "");
}

#[test]
fn hourly_block_only_when_an_observation_is_dated_today() {
    let input = vec![
        obs("2024-05-01T00:00", 10, Some(100), "fog"),
        obs("2024-05-02T00:00", 20, Some(200), "cloudy"),
    ];
    let without = report(Some("X"), &input, "2024-05-03");
    // blank, title, header, rule, two cards, trailing blank: no hourly block
    assert_eq!(without.len(), 7);
    assert!(!without.iter().any(|l| l.contains("Time")));

    let with = report(Some("X"), &input, "2024-05-02");
    assert_eq!(with.len(), 11);
    assert!(with.iter().any(|l| l.contains("Time")));
}

#[test]
fn weekday_labels_for_other_days() {
    let input = vec![obs("2000-01-01T08:00", 10, None, "dry")];
    let lines = report(Some("X"), &input, "2000-01-02");
    // 2000-01-01 was a Saturday
    assert!(lines[4].contains("Sat 01.01."));
    assert!(!lines[4].contains("Today"));
}

#[test]
fn mixed_days_keep_first_occurrence_order_and_label_today() {
    let input = vec![
        obs("2024-04-30T23:00", 10, None, "dry"),
        obs("2024-05-01T08:00", 20, Some(500), "cloudy"),
        obs("2024-04-30T23:30", 30, None, "dry"),
    ];
    let lines = report(Some("X"), &input, "2024-05-01");
    // two cards in first-occurrence order: 2024-04-30 (a Tuesday), then today
    assert!(lines[4].contains("Tue 30.04."));
    assert!(lines[5].contains("\x1b[1mToday\x1b[0m"));
    // caution colour for exactly 50 percent
    assert!(lines[5].contains("\x1b[33m 50%"));
    // the hourly block lists only today's single hour
    assert_eq!(lines.len(), 11);
    assert!(lines[9].contains("08:00"));
}

#[test]
fn overview_title_without_a_resolved_place() {
    let input = vec![obs("2024-05-01T00:00", 10, None, "dry")];
    let lines = report(None, &input, "2024-05-01");
    assert_eq!(lines[1], "  \x1b[1m\x1b[36mOverview\x1b[0m");
}
