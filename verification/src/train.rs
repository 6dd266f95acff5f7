//! Departures of a stop: from the events of the journey planner to the
//! station shown on screen, and the rows of the departure board.

use vstd::prelude::*;
use chrono::Timelike;
use crate::text::{byte_len, clock_text, format_clock, utf8_len};

verus! {

/// Earliest UNIX timestamp (in seconds) of a `chrono::DateTime<Utc>`: the
/// first second of year -262143.
pub const MIN_UTC_SECS: i64 = -8334601228800;

/// Latest UNIX timestamp (in seconds) of a `chrono::DateTime<Utc>`: the last
/// second of year 262142.
pub const MAX_UTC_SECS: i64 = 8210266876799;

/// An instant in UTC, as seconds since the UNIX epoch and the nanoseconds
/// within that second (at or above one billion only inside a leap second).
#[derive(Clone, Copy, PartialEq, Eq, Structural, Debug)]
pub struct UtcTime {
    pub secs: i64,
    pub nanos: u32,
}

/// The instants that `chrono::DateTime<Utc>` can represent.
pub open spec fn utc_time_valid(t: UtcTime) -> bool {
    &&& MIN_UTC_SECS <= t.secs <= MAX_UTC_SECS
    &&& t.nanos < 2_000_000_000
    &&& (t.nanos >= 1_000_000_000 ==> t.secs % 60 == 59)
}

/// Hour and minute on the wall clock in Berlin at the given UTC instant.
pub uninterp spec fn berlin_clock(secs: i64, nanos: u32) -> (u32, u32);

/// First second of 1996 (UTC), from which Berlin follows the present EU rule
/// for summer time.
pub const EU_RULE_FROM_SECS: i64 = 820454400;

/// First second of 2100 (UTC), up to which the time zone data holds the
/// transitions of that rule.
pub const EU_RULE_UNTIL_SECS: i64 = 4102444800;

/// Whether a year of the Gregorian calendar is a leap year.
pub open spec fn is_leap_year(y: int) -> bool {
    y % 4 == 0 && (y % 100 != 0 || y % 400 == 0)
}

/// Days from 1970-01-01 to the first of January of a year from 1970 on.
pub open spec fn year_start_day(y: int) -> int {
    365 * (y - 1970) + (y - 1969) / 4 - (y - 1901) / 100 + (y - 1601) / 400
}

/// The last Sunday on or before a day (days counted from 1970-01-01, a
/// Thursday).
pub open spec fn last_sunday_until(day: int) -> int {
    day - (day + 4) % 7
}

/// Start of summer time in the EU: the last Sunday of March, 01:00 UTC.
pub open spec fn summer_time_start(y: int) -> int {
    let march_31 = year_start_day(y) + 89 + if is_leap_year(y) { 1int } else { 0int };
    last_sunday_until(march_31) * 86400 + 3600
}

/// End of summer time in the EU: the last Sunday of October, 01:00 UTC.
pub open spec fn summer_time_end(y: int) -> int {
    let october_31 = year_start_day(y) + 303 + if is_leap_year(y) { 1int } else { 0int };
    last_sunday_until(october_31) * 86400 + 3600
}

/// Whether Berlin is on summer time (CEST) at an instant from 1996 to 2099.
pub open spec fn berlin_summer_time(secs: int) -> bool {
    exists|y: int| 1996 <= y <= 2099 && #[trigger] summer_time_start(y) <= secs < summer_time_end(y)
}

/// Berlin's offset from UTC, in seconds, at an instant from 1996 to 2099:
/// two hours in summer time, one hour otherwise.
pub open spec fn berlin_offset(secs: int) -> int {
    if berlin_summer_time(secs) { 7200 } else { 3600 }
}

/// Hour and minute of the time of day of a count of seconds.
pub open spec fn wall_clock(secs: int) -> (int, int) {
    ((secs % 86400) / 3600, (secs % 3600) / 60)
}

/// Hour and minute in Berlin at a UTC instant: `chrono::DateTime::<Utc>::from_timestamp`,
/// then `with_timezone(&chrono_tz::Europe::Berlin)`, then `hour()` and `minute()`.
/// Claimed: the result is a function of the instant alone, the hour is below 24
/// and the minute below 60, and from 1996 to 2099 it is the wall clock of the
/// instant shifted by one hour, or by two hours from the last Sunday of March,
/// 01:00 UTC, to the last Sunday of October, 01:00 UTC (the EU rule, which
/// chrono-tz's Europe/Berlin transitions follow over those years). Before 1996
/// and from 2100 which hour and minute come out is not stated.
#[verifier::external_body]
fn berlin_hour_minute(secs: i64, nanos: u32) -> (hm: (u32, u32))
    requires
        utc_time_valid(UtcTime { secs, nanos }),
    ensures
        hm == berlin_clock(secs, nanos),
        hm.0 < 24,
        hm.1 < 60,
        EU_RULE_FROM_SECS <= secs < EU_RULE_UNTIL_SECS ==> hm.0 == wall_clock(
            secs + berlin_offset(secs as int),
        ).0 && hm.1 == wall_clock(secs + berlin_offset(secs as int)).1,
{
    let utc = chrono::DateTime::<chrono::Utc>::from_timestamp(secs, nanos).unwrap();
    let local = utc.with_timezone(&chrono_tz::Europe::Berlin);
    (local.hour(), local.minute())
}

/// The `HH:MM` text of a time in Berlin: from 1996 to 2099 the wall clock of
/// the UTC time shifted by Berlin's offset; otherwise that of the time zone
/// data.
pub open spec fn time_text(t: UtcTime) -> Seq<char> {
    if EU_RULE_FROM_SECS <= t.secs < EU_RULE_UNTIL_SECS {
        clock_text(
            wall_clock(t.secs + berlin_offset(t.secs as int)).0,
            wall_clock(t.secs + berlin_offset(t.secs as int)).1,
        )
    } else {
        clock_text(berlin_clock(t.secs, t.nanos).0 as int, berlin_clock(t.secs, t.nanos).1 as int)
    }
}

/// Formats an instant as the Berlin wall-clock time `HH:MM`.
pub fn time_format(time: UtcTime) -> (s: String)
    requires
        utc_time_valid(time),
    ensures
        s@ == time_text(time),
        berlin_clock(time.secs, time.nanos).0 < 24,
        berlin_clock(time.secs, time.nanos).1 < 60,
        EU_RULE_FROM_SECS <= time.secs < EU_RULE_UNTIL_SECS ==> s@ == clock_text(
            wall_clock(time.secs + berlin_offset(time.secs as int)).0,
            wall_clock(time.secs + berlin_offset(time.secs as int)).1,
        ),
{
    let (hour, minute) = berlin_hour_minute(time.secs, time.nanos);
    format_clock(hour, minute)
}


/// One departure of the board.
#[derive(Clone, Debug, PartialEq, Eq)]
pub struct Departure {
    pub destination: String,
    pub dep_time: String,
    pub real_time: String,
    pub is_delayed: bool,
    pub line: String,
    pub cancelled: bool,
}

/// A stop with its upcoming departures.
#[derive(Clone, Debug, PartialEq, Eq)]
pub struct Station {
    pub departures: Vec<Departure>,
    pub name: String,
}

/// What the departure board reads of one stop event of the journey planner.
#[derive(Clone, Debug)]
pub struct StopEvent {
    /// The name of the stop the event belongs to.
    pub stop_name: String,
    /// The name of the final stop of the service.
    pub destination: String,
    /// The name of the line.
    pub line: String,
    /// The timetabled departure.
    pub timetabled_time: UtcTime,
    /// The departure as currently estimated, where one is known.
    pub estimated_time: Option<UtcTime>,
}

/// Every instant of the event is one that chrono can hold.
pub open spec fn stop_event_valid(e: StopEvent) -> bool {
    &&& utc_time_valid(e.timetabled_time)
    &&& (e.estimated_time matches Some(t) ==> utc_time_valid(t))
}

/// Every event of the reply is valid.
pub open spec fn stop_events_valid(events: Seq<StopEvent>) -> bool {
    forall|i: int| 0 <= i < events.len() ==> stop_event_valid(#[trigger] events[i])
}

/// Whether chrono can hold the instant.
pub fn utc_time_is_valid(t: UtcTime) -> (valid: bool)
    ensures
        valid == utc_time_valid(t),
{
    MIN_UTC_SECS <= t.secs && t.secs <= MAX_UTC_SECS && t.nanos < 2_000_000_000 && (t.nanos
        < 1_000_000_000 || t.secs % 60 == 59 || t.secs % 60 == -1)
}

/// Whether every instant of every event of a reply is one that chrono can hold.
pub fn stop_events_are_valid(events: &Vec<StopEvent>) -> (valid: bool)
    ensures
        valid == stop_events_valid(events@),
{
    for i in 0..events.len()
        invariant
            forall|j: int| 0 <= j < i ==> stop_event_valid(#[trigger] events@[j]),
    {
        let e = &events[i];
        if !utc_time_is_valid(e.timetabled_time) {
            return false;
        }
        match e.estimated_time {
            Some(t) => {
                if !utc_time_is_valid(t) {
                    return false;
                }
            },
            None => {},
        }
    }
    true
}

/// A departure counts as delayed when an estimate is known and differs from
/// the timetable.
pub open spec fn event_delayed(e: StopEvent) -> bool {
    e.estimated_time matches Some(t) && t != e.timetabled_time
}

/// The departure that a stop event stands for.
pub open spec fn event_departure_matches(e: StopEvent, d: Departure) -> bool {
    &&& d.destination@ == e.destination@
    &&& d.dep_time@ == time_text(e.timetabled_time)
    &&& d.is_delayed == event_delayed(e)
    &&& d.real_time@ == (if event_delayed(e) { time_text(e.estimated_time->0) } else { Seq::<char>::empty() })
    &&& d.line@ == e.line@
    &&& !d.cancelled
}

/// The station a reply of the journey planner stands for: named after the
/// stop of its first event (empty without events), with one departure per
/// event, in the order of the events.
pub open spec fn station_matches(events: Seq<StopEvent>, s: Station) -> bool {
    &&& s.name@ == (if events.len() == 0 { Seq::<char>::empty() } else { events[0].stop_name@ })
    &&& s.departures@.len() == events.len()
    &&& forall|i: int| 0 <= i < events.len() ==> event_departure_matches(#[trigger] events[i], s.departures@[i])
}

/// Turns one stop event into a departure of the board.
pub fn trias_stop_event_to_departure(event: StopEvent) -> (d: Departure)
    requires
        stop_event_valid(event),
    ensures
        event_departure_matches(event, d),
        event.estimated_time matches Some(t) ==> (t != event.timetabled_time ==> d.is_delayed
            && d.real_time@ == time_text(t)),
        event.estimated_time is None || event.estimated_time == Some(event.timetabled_time)
            ==> !d.is_delayed && d.real_time@.len() == 0,
        d.dep_time@ == time_text(event.timetabled_time),
{
    let mut is_delayed = false;
    let raw_dep_time = event.timetabled_time;
    let est_time = match event.estimated_time {
        Some(value) => {
            if value != raw_dep_time {
                is_delayed = true;
                time_format(value)
            } else {
                String::new()
            }
        },
        None => String::new(),
    };
    Departure {
        destination: event.destination,
        dep_time: time_format(raw_dep_time),
        real_time: est_time,
        is_delayed,
        line: event.line,
        cancelled: false,
    }
}

fn copy_event(e: &StopEvent) -> (r: StopEvent)
    ensures
        r == *e,
{
    StopEvent {
        stop_name: e.stop_name.clone(),
        destination: e.destination.clone(),
        line: e.line.clone(),
        timetabled_time: e.timetabled_time,
        estimated_time: e.estimated_time,
    }
}

/// Turns the reply of the journey planner into the station it describes.
pub fn trias_response_to_station(responses: Vec<StopEvent>) -> (s: Station)
    requires
        stop_events_valid(responses@),
    ensures
        station_matches(responses@, s),
{
    let mut departures: Vec<Departure> = Vec::new();
    if responses.len() == 0 {
        return Station { name: String::new(), departures };
    }
    let name = responses[0].stop_name.clone();
    let n = responses.len();
    for i in 0..n
        invariant
            n == responses@.len(),
            stop_events_valid(responses@),
            departures@.len() == i,
            forall|j: int| 0 <= j < i ==> event_departure_matches(#[trigger] responses@[j], departures@[j]),
    {
        let event = copy_event(&responses[i]);
        departures.push(trias_stop_event_to_departure(event));
    }
    Station { name, departures }
}


/// The station described by a reply of the journey planner.
pub fn get_departures(responses: Vec<StopEvent>) -> (s: Station)
    requires
        stop_events_valid(responses@),
    ensures
        station_matches(responses@, s),
{
    trias_response_to_station(responses)
}

/// Replaces the departures of the board by those of a new reply of the
/// journey planner.
pub fn update_departures(departures: &mut Vec<Departure>, responses: Vec<StopEvent>)
    requires
        stop_events_valid(responses@),
    ensures
        final(departures)@.len() == responses@.len(),
        forall|i: int|
            0 <= i < responses@.len() ==> event_departure_matches(
                #[trigger] responses@[i],
                final(departures)@[i],
            ),
{
    let intermediate_station = get_departures(responses);
    *departures = intermediate_station.departures;
}

/// One row of the departure board.
#[derive(Debug, PartialEq, Eq)]
pub enum TrainRow {
    /// The first row of the board, empty.
    Empty,
    /// A delayed departure: the estimate, a space, the timetabled time (struck
    /// through), `padding` spaces, `bis ` and the destination.
    Delayed { real_time: String, dep_time: String, padding: usize, destination: String },
    /// A departure on time: the time, `padding` spaces, `bis ` and the destination.
    OnTime { dep_time: String, padding: usize, destination: String },
    /// `Bus `, the line, a space and `rule` copies of `═`.
    Line { line: String, rule: usize },
    /// A row holding one space.
    Blank,
}

/// What a row of the departure board shows.
pub enum TrainRowView {
    Empty,
    Delayed { real_time: Seq<char>, dep_time: Seq<char>, padding: int, destination: Seq<char> },
    OnTime { dep_time: Seq<char>, padding: int, destination: Seq<char> },
    Line { line: Seq<char>, rule: int },
    Blank,
}

impl View for TrainRow {
    type V = TrainRowView;

    open spec fn view(&self) -> TrainRowView {
        match self {
            TrainRow::Empty => TrainRowView::Empty,
            TrainRow::Delayed { real_time, dep_time, padding, destination } => TrainRowView::Delayed {
                real_time: real_time@,
                dep_time: dep_time@,
                padding: *padding as int,
                destination: destination@,
            },
            TrainRow::OnTime { dep_time, padding, destination } => TrainRowView::OnTime {
                dep_time: dep_time@,
                padding: *padding as int,
                destination: destination@,
            },
            TrainRow::Line { line, rule } => TrainRowView::Line { line: line@, rule: *rule as int },
            TrainRow::Blank => TrainRowView::Blank,
        }
    }
}

/// The board's departures, drawn in the width and height of its area.
pub struct TrainWidget {
    pub departures: Vec<Departure>,
}

/// Width taken by the times, `bis ` and the destination of a departure.
pub open spec fn departure_text_len(d: Departure) -> int {
    if d.is_delayed {
        byte_len(d.dep_time@) + 1 + byte_len(d.real_time@) + 4 + d.destination@.len()
    } else {
        byte_len(d.dep_time@) + 4 + d.destination@.len()
    }
}

/// The three rows of a departure that fits in the given width.
pub open spec fn departure_rows(d: Departure, width: int) -> Seq<TrainRowView> {
    let first = if d.is_delayed {
        TrainRowView::Delayed {
            real_time: d.real_time@,
            dep_time: d.dep_time@,
            padding: width - departure_text_len(d),
            destination: d.destination@,
        }
    } else {
        TrainRowView::OnTime {
            dep_time: d.dep_time@,
            padding: width - departure_text_len(d),
            destination: d.destination@,
        }
    };
    seq![first, TrainRowView::Line { line: d.line@, rule: width - 6 }, TrainRowView::Blank]
}

/// The rows shown for the departures, with `rem` rows of height left: cancelled
/// departures are skipped; the board ends at the first departure for which
/// fewer than three rows are left or whose text does not fit in the width.
pub open spec fn board_rows(deps: Seq<Departure>, width: int, rem: int) -> Seq<TrainRowView>
    decreases deps.len(),
{
    if deps.len() == 0 {
        seq![]
    } else if deps[0].cancelled {
        board_rows(deps.drop_first(), width, rem)
    } else if rem < 3 || departure_text_len(deps[0]) >= width {
        seq![]
    } else {
        departure_rows(deps[0], width) + board_rows(deps.drop_first(), width, rem - 3)
    }
}

/// The board can be drawn: no departure that is reached has a text longer than
/// a `u16` can count, and once a departure is shown the width leaves room for
/// the rule under it (at least seven columns).
pub open spec fn board_fits(deps: Seq<Departure>, width: int, rem: int) -> bool
    decreases deps.len(),
{
    if deps.len() == 0 {
        true
    } else if deps[0].cancelled {
        board_fits(deps.drop_first(), width, rem)
    } else if rem < 3 {
        true
    } else if departure_text_len(deps[0]) > 65535 {
        false
    } else if departure_text_len(deps[0]) >= width {
        true
    } else {
        width >= 7 && board_fits(deps.drop_first(), width, rem - 3)
    }
}

/// The rows of the views of a sequence of rows.
pub open spec fn train_rows_view(rows: Seq<TrainRow>) -> Seq<TrainRowView> {
    rows.map_values(|r: TrainRow| r@)
}

/// The Berlin time of an instant is written as `HH:MM`: five characters with
/// a colon in the middle.
pub proof fn law_time_text_shape(t: UtcTime)
    ensures
        time_text(t).len() == 5,
        time_text(t)[2] == ':',
{
}

/// A departure shows an estimated time exactly when it is delayed, and its
/// timetabled time always.
pub proof fn law_delay_shown(e: StopEvent, d: Departure)
    requires
        event_departure_matches(e, d),
    ensures
        d.is_delayed <==> d.real_time@.len() > 0,
        d.dep_time@.len() == 5,
{
}

/// From 1996 to 2099 a departure time is shown as the wall clock in Berlin:
/// the UTC time plus one hour, or plus two hours between the last Sundays of
/// March and October at 01:00 UTC.
pub proof fn law_berlin_wall_clock(t: UtcTime, y: int)
    requires
        EU_RULE_FROM_SECS <= t.secs < EU_RULE_UNTIL_SECS,
        1996 <= y <= 2099,
    ensures
        summer_time_start(y) <= t.secs < summer_time_end(y) ==> time_text(t) == clock_text(
            wall_clock(t.secs + 7200).0,
            wall_clock(t.secs + 7200).1,
        ),
        !berlin_summer_time(t.secs as int) ==> time_text(t) == clock_text(
            wall_clock(t.secs + 3600).0,
            wall_clock(t.secs + 3600).1,
        ),
{
    if summer_time_start(y) <= t.secs < summer_time_end(y) {
        assert(berlin_summer_time(t.secs as int));
    }
}

/// An estimate that differs from the timetable, earlier or later, marks the
/// departure as delayed and is shown; without an estimate, or with one equal
/// to the timetable, nothing is shown beside the timetabled time.
pub proof fn law_estimate_shown_when_different(e: StopEvent, d: Departure)
    requires
        event_departure_matches(e, d),
    ensures
        forall|t: UtcTime|
            e.estimated_time == Some(t) && t != e.timetabled_time ==> d.is_delayed && d.real_time@
                == time_text(t),
        e.estimated_time is None || e.estimated_time == Some(e.timetabled_time) ==> !d.is_delayed
            && d.real_time@.len() == 0,
        forall|t: UtcTime|
            e.estimated_time == Some(t) && (t.secs < e.timetabled_time.secs || t.secs
                > e.timetabled_time.secs || t.nanos != e.timetabled_time.nanos) ==> d.is_delayed,
{
}

/// Cancelled departures take no rows: inserting one anywhere leaves the
/// board, and whether it can be drawn, as they were.
pub proof fn law_cancelled_ignored(deps: Seq<Departure>, i: int, d: Departure, width: int, rem: int)
    requires
        0 <= i <= deps.len(),
        d.cancelled,
    ensures
        board_rows(deps.insert(i, d), width, rem) == board_rows(deps, width, rem),
        board_fits(deps.insert(i, d), width, rem) == board_fits(deps, width, rem),
    decreases deps.len(),
{
    let ins = deps.insert(i, d);
    if i == 0 {
        assert(ins.drop_first() =~= deps);
    } else {
        assert(ins[0] == deps[0]);
        assert(ins.drop_first() =~= deps.drop_first().insert(i - 1, d));
        law_cancelled_ignored(deps.drop_first(), i - 1, d, width, rem - 3);
        law_cancelled_ignored(deps.drop_first(), i - 1, d, width, rem);
    }
}

/// The board takes three rows per departure shown and never more rows than
/// the height it is given.
pub proof fn law_board_within_height(deps: Seq<Departure>, width: int, rem: int)
    requires
        rem >= 0,
    ensures
        board_rows(deps, width, rem).len() <= rem,
        board_rows(deps, width, rem).len() % 3 == 0,
    decreases deps.len(),
{
    if deps.len() > 0 {
        if deps[0].cancelled {
            law_board_within_height(deps.drop_first(), width, rem);
        } else if rem >= 3 {
            law_board_within_height(deps.drop_first(), width, rem - 3);
        }
    }
}

fn copy_string(s: &String) -> (r: String)
    ensures
        r@ == s@,
{
    s.clone()
}

impl TrainWidget {
    /// Whether the board can be drawn in an area of the given width and height.
    pub fn fits(&self, width: u16, height: u16) -> (fits: bool)
        ensures
            fits == board_fits(self.departures@, width as int, height as int),
    {
        let ghost deps = self.departures@;
        let n = self.departures.len();
        let mut rem: u16 = height;
        let mut i: usize = 0;
        assert(deps.skip(0) =~= deps);
        loop
            invariant
                n == deps.len(),
                deps == self.departures@,
                0 <= i <= n,
                board_fits(deps, width as int, height as int) == board_fits(
                    deps.skip(i as int),
                    width as int,
                    rem as int,
                ),
            decreases n - i,
        {
            if i >= n {
                assert(deps.skip(i as int) =~= Seq::<Departure>::empty());
                return true;
            }
            let departure = &self.departures[i];
            let ghost rest = deps.skip(i as int);
            assert(rest[0] == departure);
            assert(rest.drop_first() =~= deps.skip(i + 1));
            if !departure.cancelled {
                if rem < 3 {
                    return true;
                }
                let dep_len = utf8_len(departure.dep_time.as_str());
                let dest_len = departure.destination.as_str().unicode_len() as u128;
                let text_len: u128 = if departure.is_delayed {
                    dep_len + 1 + utf8_len(departure.real_time.as_str()) + 4 + dest_len
                } else {
                    dep_len + 4 + dest_len
                };
                assert(text_len == departure_text_len(*departure));
                if text_len > 65535 {
                    return false;
                }
                if text_len >= width as u128 {
                    return true;
                }
                if width < 7 {
                    return false;
                }
                rem = rem - 3;
            }
            i = i + 1;
        }
    }

    /// The rows of the board for an area of the given width and height.
    pub fn render_rows(&self, width: u16, height: u16) -> (rows: Vec<TrainRow>)
        requires
            board_fits(self.departures@, width as int, height as int),
        ensures
            train_rows_view(rows@) == seq![TrainRowView::Empty] + board_rows(
                self.departures@,
                width as int,
                height as int,
            ),
    {
        let ghost deps = self.departures@;
        let ghost full = board_rows(deps, width as int, height as int);
        let mut rows: Vec<TrainRow> = Vec::new();
        rows.push(TrainRow::Empty);
        let mut rem_height: u16 = height;
        let n = self.departures.len();
        let mut i: usize = 0;
        assert(deps.skip(0) =~= deps);
        loop
            invariant
                n == deps.len(),
                deps == self.departures@,
                0 <= i <= n,
                board_fits(deps.skip(i as int), width as int, rem_height as int),
                seq![TrainRowView::Empty] + full == train_rows_view(rows@) + board_rows(
                    deps.skip(i as int),
                    width as int,
                    rem_height as int,
                ),
            ensures
                train_rows_view(rows@) == seq![TrainRowView::Empty] + full,
            decreases n - i,
        {
            if i >= n {
                assert(deps.skip(i as int) =~= Seq::<Departure>::empty());
                assert(train_rows_view(rows@) =~= seq![TrainRowView::Empty] + full);
                break;
            }
            let departure = &self.departures[i];
            let ghost rest = deps.skip(i as int);
            assert(rest[0] == departure);
            assert(rest.drop_first() =~= deps.skip(i + 1));
            if !departure.cancelled {
                if rem_height < 3 {
                    assert(train_rows_view(rows@) =~= seq![TrainRowView::Empty] + full);
                    break;
                }
                let dep_len = utf8_len(departure.dep_time.as_str());
                let dest_len = departure.destination.as_str().unicode_len() as u128;
                let text_len: u128 = if departure.is_delayed {
                    dep_len + 1 + utf8_len(departure.real_time.as_str()) + 4 + dest_len
                } else {
                    dep_len + 4 + dest_len
                };
                assert(text_len == departure_text_len(*departure));
                if text_len >= width as u128 {
                    assert(train_rows_view(rows@) =~= seq![TrainRowView::Empty] + full);
                    break;
                }
                let padding = (width as u128 - text_len) as usize;
                let first = if departure.is_delayed {
                    TrainRow::Delayed {
                        real_time: copy_string(&departure.real_time),
                        dep_time: copy_string(&departure.dep_time),
                        padding,
                        destination: copy_string(&departure.destination),
                    }
                } else {
                    TrainRow::OnTime {
                        dep_time: copy_string(&departure.dep_time),
                        padding,
                        destination: copy_string(&departure.destination),
                    }
                };
                let ghost before = rows@;
                rows.push(first);
                rows.push(TrainRow::Line { line: copy_string(&departure.line), rule: (width - 6) as usize });
                rows.push(TrainRow::Blank);
                assert(train_rows_view(rows@) =~= train_rows_view(before) + departure_rows(*departure, width as int));
                rem_height = rem_height - 3;
            }
            i = i + 1;
        }
        rows
    }
}

} // verus!
