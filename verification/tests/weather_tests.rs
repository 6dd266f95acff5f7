use campus_dashboard::weather::{
    current_temp_layout, forecast_padding, graph_time_axis, parse_wmo_code, weather_areas, Area,
    TimeAxis, WheatherCondition,
};

fn cond(icon: &str, description: &str) -> WheatherCondition {
    WheatherCondition { icon: icon.to_string(), description: description.to_string() }
}

#[test]
fn wmo_codes_map_to_conditions() {
    assert_eq!(parse_wmo_code(0), cond("\u{e30d} ", "wolkenfrei"));
    assert_eq!(parse_wmo_code(2), cond("\u{e312} ", "bewölkt"));
    assert_eq!(parse_wmo_code(45), cond("\u{e313} ", " nebelig"));
    assert_eq!(parse_wmo_code(57), cond("\u{e316} ", "nieselig"));
    assert_eq!(parse_wmo_code(61), cond("\u{e317} ", "leicht regnerisch"));
    assert_eq!(parse_wmo_code(76), cond("\u{e31a} ", "leichter schnee"));
    assert_eq!(parse_wmo_code(80), cond("\u{e318} ", "regnerisch"));
    assert_eq!(parse_wmo_code(86), cond("\u{e35e} ", "schnee"));
    assert_eq!(parse_wmo_code(99), cond("\u{e31c} ", "stürmisch"));
}

#[test]
fn unlisted_wmo_codes_are_unknown() {
    for code in [4u8, 44, 49, 50, 58, 60, 68, 70, 77, 78, 79, 87, 94, 100, 255] {
        assert_eq!(parse_wmo_code(code), cond(" ", "unbekannt"));
    }
}

#[test]
fn weather_panel_areas() {
    let (temp, rain, forecast) = weather_areas(10, 5, 60);
    assert_eq!(temp, Area { x: 11, y: 9, width: 30, height: 10 });
    assert_eq!(rain, Area { x: 41, y: 9, width: 28, height: 10 });
    assert_eq!(forecast, Area { x: 10, y: 19, width: 60, height: 15 });
    let (_, rain, _) = weather_areas(0, 0, 61);
    assert_eq!(rain, Area { x: 31, y: 4, width: 29, height: 10 });
    let (_, rain, _) = weather_areas(0, 0, 3);
    assert_eq!(rain.width, 0);
}

#[test]
fn current_conditions_layout_counts_description_bytes() {
    let c = parse_wmo_code(2);
    // "bewölkt" has 8 bytes; "  12.5°C" has 8 characters.
    assert_eq!(current_temp_layout(40, &c, "  12.5°C"), (40 - 6 - 8 - 8, 38));
}

#[test]
fn forecast_padding_leaves_fifty_columns() {
    assert_eq!(forecast_padding(80), 30);
    assert_eq!(forecast_padding(50), 0);
}

fn hourly(start_hour: u32, n: u32) -> Vec<String> {
    (0..n)
        .map(|i| {
            let h = start_hour + i;
            format!("2024-05-{:02}T{:02}:30", 6 + h / 24, h % 24)
        })
        .collect()
}

#[test]
fn time_axis_of_a_day_of_hourly_samples() {
    let axis = graph_time_axis(&hourly(5, 30)).unwrap();
    assert_eq!(axis.minutes, (0..24).map(|i| i * 60).collect::<Vec<i64>>());
    assert_eq!(axis.labels, vec!["05:30", "13:30", "21:30", "05:30"]);
}

#[test]
fn time_axis_with_fewer_samples() {
    let axis = graph_time_axis(&hourly(22, 3)).unwrap();
    assert_eq!(
        axis,
        TimeAxis {
            minutes: vec![0, 60, 120],
            labels: vec!["22:30".to_string(), "06:30".to_string(), "14:30".to_string(), "22:30".to_string()],
        }
    );
}

#[test]
fn time_axis_minutes_may_be_negative_and_uneven() {
    let times = vec!["2024-05-06T12:00".to_string(), "2024-05-06T11:15".to_string(), "2024-05-07T12:01".to_string()];
    let axis = graph_time_axis(&times).unwrap();
    assert_eq!(axis.minutes, vec![0, -45, 1441]);
}

#[test]
fn time_axis_before_1970() {
    let axis = graph_time_axis(&vec!["1969-12-31T23:00".to_string()]).unwrap();
    assert_eq!(axis.labels, vec!["23:00", "07:00", "15:00", "23:00"]);
}

#[test]
fn time_axis_needs_parsable_times() {
    assert_eq!(graph_time_axis(&vec![]), None);
    assert_eq!(graph_time_axis(&vec!["2024-05-06T12:00".to_string(), "2024-05-06 13:00".to_string()]), None);
    assert_eq!(graph_time_axis(&vec!["2024-05-06T12:00:00".to_string()]), None);
    assert_eq!(graph_time_axis(&vec!["2024-13-06T12:00".to_string()]), None);
}

#[test]
fn time_axis_needs_room_for_the_last_label() {
    assert!(graph_time_axis(&vec!["+262142-12-30T23:59".to_string()]).is_some());
    assert_eq!(graph_time_axis(&vec!["+262142-12-31T00:00".to_string()]), None);
}

#[test]
fn time_axis_labels_agree_with_chrono() {
    for text in ["2024-03-31T01:17", "2000-02-29T23:59", "1900-01-01T00:00", "2038-01-19T03:14"] {
        let t = chrono::NaiveDateTime::parse_from_str(text, "%Y-%m-%dT%H:%M").unwrap();
        let axis = graph_time_axis(&vec![text.to_string()]).unwrap();
        for (k, label) in axis.labels.iter().enumerate() {
            let expected = t
                .checked_add_signed(chrono::TimeDelta::hours(8 * k as i64))
                .unwrap()
                .time()
                .format("%H:%M")
                .to_string();
            assert_eq!(label, &expected);
        }
    }
}
