use campus_dashboard::text::format_clock;
use campus_dashboard::train::{
    get_departures, time_format, trias_response_to_station, trias_stop_event_to_departure,
    update_departures, Departure, StopEvent, TrainRow, TrainWidget, UtcTime, MAX_UTC_SECS,
    MIN_UTC_SECS,
};

fn t(secs: i64) -> UtcTime {
    UtcTime { secs, nanos: 0 }
}

fn event(stop: &str, dest: &str, line: &str, planned: i64, estimate: Option<i64>) -> StopEvent {
    StopEvent {
        stop_name: stop.to_string(),
        destination: dest.to_string(),
        line: line.to_string(),
        timetabled_time: t(planned),
        estimated_time: estimate.map(t),
    }
}

fn dep(dest: &str, dep_time: &str, real_time: &str, delayed: bool, line: &str, cancelled: bool) -> Departure {
    Departure {
        destination: dest.to_string(),
        dep_time: dep_time.to_string(),
        real_time: real_time.to_string(),
        is_delayed: delayed,
        line: line.to_string(),
        cancelled,
    }
}

#[test]
fn clock_has_two_digits_each() {
    assert_eq!(format_clock(7, 5), "07:05");
    assert_eq!(format_clock(23, 59), "23:59");
    assert_eq!(format_clock(0, 0), "00:00");
}

#[test]
fn berlin_winter_and_summer_time() {
    assert_eq!(time_format(t(1705322040)), "13:34");
    assert_eq!(time_format(t(1721046840)), "14:34");
    assert_eq!(time_format(t(1711846799)), "01:59");
    assert_eq!(time_format(t(1711846800)), "03:00");
    assert_eq!(time_format(t(1735686300)), "00:05");
}

#[test]
fn utc_range_is_that_of_chrono() {
    assert!(chrono::DateTime::<chrono::Utc>::from_timestamp(MAX_UTC_SECS, 999_999_999).is_some());
    assert!(chrono::DateTime::<chrono::Utc>::from_timestamp(MAX_UTC_SECS + 1, 0).is_none());
    assert!(chrono::DateTime::<chrono::Utc>::from_timestamp(MIN_UTC_SECS, 0).is_some());
    assert!(chrono::DateTime::<chrono::Utc>::from_timestamp(MIN_UTC_SECS - 1, 999_999_999).is_none());
    assert!(chrono::DateTime::<chrono::Utc>::from_timestamp(59, 1_500_000_000).is_some());
    assert!(chrono::DateTime::<chrono::Utc>::from_timestamp(58, 1_500_000_000).is_none());
    assert_eq!(time_format(UtcTime { secs: MAX_UTC_SECS, nanos: 0 }).len(), 5);
    assert_eq!(time_format(UtcTime { secs: MIN_UTC_SECS, nanos: 0 }).len(), 5);
}

#[test]
fn punctual_departure() {
    let d = trias_stop_event_to_departure(event("Uni", "Hbf", "5", 1705322040, Some(1705322040)));
    assert_eq!(d, dep("Hbf", "13:34", "", false, "5", false));
    let d = trias_stop_event_to_departure(event("Uni", "Hbf", "5", 1705322040, None));
    assert_eq!(d, dep("Hbf", "13:34", "", false, "5", false));
}

#[test]
fn delayed_departure_shows_estimate() {
    let d = trias_stop_event_to_departure(event("Uni", "Hbf", "5", 1705322040, Some(1705322220)));
    assert_eq!(d, dep("Hbf", "13:34", "13:37", true, "5", false));
}

#[test]
fn estimate_differing_in_nanoseconds_counts_as_delay() {
    let mut e = event("Uni", "Hbf", "5", 1705322040, None);
    e.estimated_time = Some(UtcTime { secs: 1705322040, nanos: 1 });
    let d = trias_stop_event_to_departure(e);
    assert!(d.is_delayed);
    assert_eq!(d.real_time, "13:34");
}

#[test]
fn empty_reply_gives_unnamed_station() {
    let s = trias_response_to_station(vec![]);
    assert_eq!(s.name, "");
    assert!(s.departures.is_empty());
}

#[test]
fn station_is_named_after_first_event() {
    let s = get_departures(vec![
        event("Uni Nord", "Hbf", "5", 1705322040, None),
        event("Uni Süd", "Zoo", "12", 1705322400, Some(1705322460)),
    ]);
    assert_eq!(s.name, "Uni Nord");
    assert_eq!(
        s.departures,
        vec![dep("Hbf", "13:34", "", false, "5", false), dep("Zoo", "13:40", "13:41", true, "12", false)]
    );
}

#[test]
fn update_replaces_departures() {
    let mut deps = vec![dep("Alt", "00:00", "", false, "1", true)];
    update_departures(&mut deps, vec![event("Uni", "Hbf", "5", 1705322040, None)]);
    assert_eq!(deps, vec![dep("Hbf", "13:34", "", false, "5", false)]);
    update_departures(&mut deps, vec![]);
    assert!(deps.is_empty());
}

#[test]
fn board_rows_for_punctual_and_delayed() {
    let w = TrainWidget {
        departures: vec![dep("Hbf", "13:34", "", false, "5", false), dep("Zoo", "13:40", "13:41", true, "12", false)],
    };
    let rows = w.render_rows(30, 10);
    assert_eq!(
        rows,
        vec![
            TrainRow::Empty,
            TrainRow::OnTime { dep_time: "13:34".to_string(), padding: 30 - 12, destination: "Hbf".to_string() },
            TrainRow::Line { line: "5".to_string(), rule: 24 },
            TrainRow::Blank,
            TrainRow::Delayed {
                real_time: "13:41".to_string(),
                dep_time: "13:40".to_string(),
                padding: 30 - 18,
                destination: "Zoo".to_string(),
            },
            TrainRow::Line { line: "12".to_string(), rule: 24 },
            TrainRow::Blank,
        ]
    );
}

#[test]
fn board_stops_when_height_runs_out() {
    let d = dep("Hbf", "13:34", "", false, "5", false);
    let w = TrainWidget { departures: vec![d.clone(), d.clone(), d.clone()] };
    assert_eq!(w.render_rows(30, 8).len(), 1 + 6);
    assert_eq!(w.render_rows(30, 2).len(), 1);
    assert_eq!(w.render_rows(30, 9).len(), 1 + 9);
}

#[test]
fn board_skips_cancelled_and_stops_at_too_wide() {
    let w = TrainWidget {
        departures: vec![
            dep("Hbf", "13:34", "", false, "5", true),
            dep("Hbf", "13:35", "", false, "5", false),
            dep("Ein sehr langer Zielname", "13:36", "", false, "5", false),
            dep("Zoo", "13:37", "", false, "5", false),
        ],
    };
    let rows = w.render_rows(20, 20);
    assert_eq!(rows.len(), 1 + 3);
    assert_eq!(
        rows[1],
        TrainRow::OnTime { dep_time: "13:35".to_string(), padding: 20 - 12, destination: "Hbf".to_string() }
    );
}

#[test]
fn destination_is_counted_in_characters_times_in_bytes() {
    let w = TrainWidget { departures: vec![dep("Köln", "13:34", "", false, "5", false)] };
    let rows = w.render_rows(20, 3);
    assert_eq!(
        rows[1],
        TrainRow::OnTime { dep_time: "13:34".to_string(), padding: 20 - 13, destination: "Köln".to_string() }
    );
}

#[test]
fn berlin_time_has_hour_and_minute_in_range() {
    for secs in (1_700_000_000i64..1_700_200_000).step_by(1_337) {
        let s = time_format(t(secs));
        let h: u32 = s[0..2].parse().unwrap();
        let m: u32 = s[3..5].parse().unwrap();
        assert!(h < 24 && m < 60 && &s[2..3] == ":");
    }
}
