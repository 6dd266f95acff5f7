use campus_dashboard::monitor::{
    abendausgabe_status, initial_update_new_day, is_quit_key, mensa_refresh_step, TimeOfDay,
};

fn at(h: u32, m: u32) -> TimeOfDay {
    TimeOfDay { secs: h * 3600 + m * 60, nanos: 0 }
}

#[test]
fn state_at_start_up() {
    assert!(!initial_update_new_day(0));
    assert!(!initial_update_new_day(11));
    assert!(initial_update_new_day(12));
    assert!(initial_update_new_day(23));
}

#[test]
fn menu_is_fetched_once_after_eleven_and_once_after_midnight() {
    let mut state = initial_update_new_day(9);
    let mut fetched = vec![];
    for (h, m) in [(9, 0), (10, 59), (11, 0), (11, 2), (11, 4), (15, 0), (23, 59), (0, 1), (0, 3), (11, 1)] {
        let (due, next) = mensa_refresh_step(state, at(h, m));
        if due {
            fetched.push((h, m));
        }
        state = next;
    }
    assert_eq!(fetched, vec![(11, 2), (0, 1), (11, 1)]);
}

#[test]
fn one_nanosecond_after_eleven_is_after() {
    let (due, next) = mensa_refresh_step(false, TimeOfDay { secs: 39600, nanos: 1 });
    assert!(due && next);
    let (due, next) = mensa_refresh_step(false, TimeOfDay { secs: 39600, nanos: 0 });
    assert!(!due && !next);
}

#[test]
fn quit_on_q_press_only() {
    assert!(is_quit_key(true, Some('q')));
    assert!(!is_quit_key(false, Some('q')));
    assert!(!is_quit_key(true, Some('Q')));
    assert!(!is_quit_key(true, None));
}

#[test]
fn status_bar_title() {
    assert_eq!(abendausgabe_status(true), "Abendausgabe ist offen");
    assert_eq!(abendausgabe_status(false), "Abendausgabe ist zu");
}
