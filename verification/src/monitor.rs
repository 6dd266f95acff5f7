//! The screen as a whole: when the canteen menu is fetched anew, which key
//! ends the program, and what the status bar says.

use vstd::prelude::*;

verus! {

/// A time of day as chrono's `NaiveTime` holds it: seconds since midnight and
/// the nanoseconds within the second.
#[derive(Clone, Copy, PartialEq, Eq, Structural, Debug)]
pub struct TimeOfDay {
    pub secs: u32,
    pub nanos: u32,
}

/// Seconds since midnight of the time at which the canteen publishes the
/// day's menu: 11:00:00.
pub const MENU_UPDATE_SECS: u32 = 39600;

/// The time of day at which the canteen publishes the day's menu.
pub open spec fn menu_update_time() -> TimeOfDay {
    TimeOfDay { secs: MENU_UPDATE_SECS, nanos: 0 }
}

/// The hour of the menu update time.
pub const MENU_UPDATE_HOUR: u32 = 11;

/// `a` comes strictly before `b` (the order of `NaiveTime`).
pub open spec fn earlier(a: TimeOfDay, b: TimeOfDay) -> bool {
    a.secs < b.secs || (a.secs == b.secs && a.nanos < b.nanos)
}

/// Whether the menu is fetched again: after 11:00 when today's menu has not
/// been fetched yet, or before 11:00 once it has (a new day began).
pub open spec fn refresh_due(update_new_day: bool, now: TimeOfDay) -> bool {
    (earlier(menu_update_time(), now) && !update_new_day) || (earlier(now, menu_update_time())
        && update_new_day)
}

/// After the menu was fetched, it is not fetched again until the time of day
/// crosses the update time: no second refresh on the same side of 11:00.
pub proof fn law_refresh_once_per_side(update_new_day: bool, a: TimeOfDay, b: TimeOfDay)
    requires
        refresh_due(update_new_day, a),
        earlier(menu_update_time(), a) == earlier(menu_update_time(), b),
        earlier(a, menu_update_time()) == earlier(b, menu_update_time()),
    ensures
        !refresh_due(!update_new_day, b),
{
}

/// Exactly at the update time the menu is never fetched.
pub proof fn law_no_refresh_at_update_time(update_new_day: bool)
    ensures
        !refresh_due(update_new_day, menu_update_time()),
{
}

/// After a check the state matches the clock: set after 11:00 (today's menu
/// has been fetched) and clear before 11:00, whatever it was.
pub proof fn law_state_follows_clock(update_new_day: bool, now: TimeOfDay)
    ensures
        earlier(menu_update_time(), now) ==> (update_new_day != refresh_due(update_new_day, now)),
        earlier(now, menu_update_time()) ==> !(update_new_day != refresh_due(update_new_day, now)),
{
}

fn time_earlier(a: TimeOfDay, b: TimeOfDay) -> (r: bool)
    ensures
        r == earlier(a, b),
{
    a.secs < b.secs || (a.secs == b.secs && a.nanos < b.nanos)
}

/// The state of the menu refresh at start-up, from the current hour: set
/// (today's menu counts as fetched) when the hour is past that of the update
/// time.
pub fn initial_update_new_day(hour: u32) -> (update_new_day: bool)
    ensures
        update_new_day == !(hour <= MENU_UPDATE_HOUR),
{
    if hour <= MENU_UPDATE_HOUR {
        false
    } else {
        true
    }
}

/// One check of the menu refresh: whether to fetch the menu now, and the
/// state after the check, which flips exactly when the menu is fetched.
pub fn mensa_refresh_step(update_new_day: bool, now: TimeOfDay) -> (r: (bool, bool))
    ensures
        r.0 == refresh_due(update_new_day, now),
        r.1 == (update_new_day != r.0),
{
    let update_time = TimeOfDay { secs: MENU_UPDATE_SECS, nanos: 0 };
    let due = (time_earlier(update_time, now) && !update_new_day) || (time_earlier(now, update_time)
        && update_new_day);
    (due, if due { !update_new_day } else { update_new_day })
}

/// Whether a key event ends the program: a press of `q`.
pub fn is_quit_key(pressed: bool, key: Option<char>) -> (quit: bool)
    ensures
        quit == (pressed && key == Some('q')),
{
    pressed && match key {
        Some(c) => c == 'q',
        None => false,
    }
}

/// The title of the status bar.
pub fn abendausgabe_status(open: bool) -> (title: &'static str)
    ensures
        title@ == (if open { "Abendausgabe ist offen"@ } else { "Abendausgabe ist zu"@ }),
{
    if open {
        "Abendausgabe ist offen"
    } else {
        "Abendausgabe ist zu"
    }
}

} // verus!
