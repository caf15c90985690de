use weather_report::aggregate::aggregate;
use weather_report::model::Observation;

fn obs(ts: &str, temp_tenths: i64, precip_tenths: Option<i64>, cond: &str) -> Observation {
    Observation {
        timestamp: ts.to_string(),
        temp_tenths,
        precip_tenths,
        condition: cond.to_string(),
    }
}

#[test]
fn high_low_are_true_extremes() {
    let input = vec![
        obs("2024-05-01T00:00", -20, Some(100), "clear"),
        obs("2024-05-01T06:00", 35, Some(0), "cloudy"),
        obs("2024-05-01T12:00", 171, None, "rain"),
        obs("2024-05-01T18:00", 4, Some(300), "cloudy"),
    ];
    let days = aggregate(&input, "2024-05-02");
    assert_eq!(days.len(), 1);
    assert_eq!(days[0].hi, 171);
    assert_eq!(days[0].lo, -20);
    assert!(days[0].hi >= days[0].lo);
}

#[test]
fn max_precipitation_defaults_missing_to_zero() {
    let input = vec![
        obs("2024-05-01T00:00", 10, None, "dry"),
        obs("2024-05-01T01:00", 10, Some(450), "rain"),
        obs("2024-05-01T02:00", 10, Some(200), "rain"),
    ];
    let days = aggregate(&input, "2024-05-02");
    assert_eq!(days[0].max_rp, 450);

    let none_at_all = vec![obs("2024-05-01T00:00", 10, None, "dry")];
    let days = aggregate(&none_at_all, "2024-05-02");
    assert_eq!(days[0].max_rp, 0);
}

#[test]
fn distinct_conditions_skip_dry_and_duplicates() {
    let input = vec![
        obs("2024-05-01T00:00", 10, None, "dry"),
        obs("2024-05-01T01:00", 10, None, "rain"),
        obs("2024-05-01T02:00", 10, None, "rain"),
        obs("2024-05-01T03:00", 10, None, "fog"),
        obs("2024-05-01T04:00", 10, None, "dry"),
        obs("2024-05-01T05:00", 10, None, "rain"),
    ];
    let days = aggregate(&input, "2024-05-02");
    assert_eq!(days[0].conds, vec!["rain".to_string(), "fog".to_string()]);
}

#[test]
fn day_order_is_first_occurrence_order() {
    let input = vec![
        obs("2024-05-02T00:00", 10, None, "dry"),
        obs("2024-05-01T00:00", 10, None, "dry"),
        obs("2024-05-02T01:00", 10, None, "dry"),
        obs("2024-05-03T00:00", 10, None, "dry"),
    ];
    let days = aggregate(&input, "2024-05-09");
    let order: Vec<&str> = days.iter().map(|d| d.day.as_str()).collect();
    assert_eq!(order, vec!["2024-05-02", "2024-05-01", "2024-05-03"]);
}

#[test]
fn hourly_entries_only_for_today_in_arrival_order() {
    let input = vec![
        obs("2024-05-01T07:00", 10, Some(10), "rain"),
        obs("2024-05-02T08:00", 20, Some(20), "fog"),
        obs("2024-05-01T09:00", 30, None, "dry"),
    ];
    let days = aggregate(&input, "2024-05-01");
    assert_eq!(days[0].hours.len(), 2);
    assert_eq!(days[0].hours[0].hour, "07:00");
    assert_eq!(days[0].hours[0].temp_tenths, 10);
    assert_eq!(days[0].hours[0].precip_tenths, 10);
    assert_eq!(days[0].hours[0].condition, "rain");
    assert_eq!(days[0].hours[1].hour, "09:00");
    assert_eq!(days[0].hours[1].precip_tenths, 0);
    assert_eq!(days[1].hours.len(), 0);
}

#[test]
fn empty_input_yields_empty_output() {
    let days = aggregate(&Vec::new(), "2024-05-01");
    assert!(days.is_empty());
}
