//! Weather: the description of WMO weather codes and the layout of the panel.

use vstd::prelude::*;
use vstd::utf8::encode_utf8;
use crate::text::{clock_text, format_clock};
use crate::train::{MAX_UTC_SECS, MIN_UTC_SECS};

verus! {

/// How a WMO weather code is shown: a Nerd Font glyph and a German word.
#[derive(Clone, Debug, PartialEq, Eq)]
pub struct WheatherCondition {
    pub icon: String,
    pub description: String,
}

/// The (icon, description) pair that a WMO weather code stands for.
pub open spec fn wmo_condition(code: u8) -> (Seq<char>, Seq<char>) {
    if code == 0 {
        ("\u{e30d} "@, "wolkenfrei"@)
    } else if 1 <= code <= 3 {
        ("\u{e312} "@, "bew\u{f6}lkt"@)
    } else if 45 <= code <= 48 {
        ("\u{e313} "@, " nebelig"@)
    } else if 51 <= code <= 57 {
        ("\u{e316} "@, "nieselig"@)
    } else if 61 <= code <= 67 {
        ("\u{e317} "@, "leicht regnerisch"@)
    } else if 71 <= code < 77 {
        ("\u{e31a} "@, "leichter schnee"@)
    } else if 80 <= code <= 83 {
        ("\u{e318} "@, "regnerisch"@)
    } else if 84 <= code <= 86 {
        ("\u{e35e} "@, "schnee"@)
    } else if 95 <= code <= 99 {
        ("\u{e31c} "@, "st\u{fc}rmisch"@)
    } else {
        (" "@, "unbekannt"@)
    }
}

/// The weather panel's table of WMO code classes: clear sky (0), partly
/// cloudy to overcast (1-3), fog (45-48), drizzle (51-57), rain (61-67), snow
/// (71-76), rain showers (80-83), snow showers (84-86), thunderstorm (95-99);
/// every other code is unknown.
pub proof fn law_wmo_classes(code: u8)
    ensures
        code == 0 ==> wmo_condition(code) == ("\u{e30d} "@, "wolkenfrei"@),
        1 <= code && code <= 3 ==> wmo_condition(code) == ("\u{e312} "@, "bew\u{f6}lkt"@),
        45 <= code && code <= 48 ==> wmo_condition(code) == ("\u{e313} "@, " nebelig"@),
        51 <= code && code <= 57 ==> wmo_condition(code) == ("\u{e316} "@, "nieselig"@),
        61 <= code && code <= 67 ==> wmo_condition(code) == ("\u{e317} "@, "leicht regnerisch"@),
        71 <= code && code <= 76 ==> wmo_condition(code) == ("\u{e31a} "@, "leichter schnee"@),
        80 <= code && code <= 83 ==> wmo_condition(code) == ("\u{e318} "@, "regnerisch"@),
        84 <= code && code <= 86 ==> wmo_condition(code) == ("\u{e35e} "@, "schnee"@),
        95 <= code && code <= 99 ==> wmo_condition(code) == ("\u{e31c} "@, "st\u{fc}rmisch"@),
        (4 <= code && code <= 44) || (49 <= code && code <= 50) || (58 <= code && code <= 60) || (68
            <= code && code <= 70) || (77 <= code && code <= 79) || (87 <= code && code <= 94) || 100
            <= code ==> wmo_condition(code) == (" "@, "unbekannt"@),
{
}

fn condition(icon: &str, description: &str) -> (c: WheatherCondition)
    ensures
        c.icon@ == icon@,
        c.description@ == description@,
{
    WheatherCondition { icon: String::from_str(icon), description: String::from_str(description) }
}

/// Maps a WMO weather code to the icon and description shown for it.
pub fn parse_wmo_code(code: u8) -> (c: WheatherCondition)
    ensures
        (c.icon@, c.description@) == wmo_condition(code),
{
    match code {
        0 => condition("\u{e30d} ", "wolkenfrei"),
        1..=3 => condition("\u{e312} ", "bew\u{f6}lkt"),
        45..=48 => condition("\u{e313} ", " nebelig"),
        51..=57 => condition("\u{e316} ", "nieselig"),
        61..=67 => condition("\u{e317} ", "leicht regnerisch"),
        71..77 => condition("\u{e31a} ", "leichter schnee"),
        80..=83 => condition("\u{e318} ", "regnerisch"),
        84..=86 => condition("\u{e35e} ", "schnee"),
        95..=99 => condition("\u{e31c} ", "st\u{fc}rmisch"),
        _ => condition(" ", "unbekannt"),
    }
}


/// A rectangle of the screen, as ratatui's `Rect::new` takes it.
#[derive(Clone, Copy, PartialEq, Eq, Structural, Debug)]
pub struct Area {
    pub x: u16,
    pub y: u16,
    pub width: u16,
    pub height: u16,
}

/// The parts of the weather panel placed at (`x`, `y`) with the given width:
/// the temperature graph and the rain graph side by side below the current
/// conditions, and the week's forecast below them.
pub open spec fn weather_layout(x: int, y: int, width: int) -> (Area, Area, Area) {
    let half = width / 2;
    (
        Area { x: (x + 1) as u16, y: (y + 4) as u16, width: half as u16, height: 10 },
        Area {
            x: (x + 1 + half) as u16,
            y: (y + 4) as u16,
            width: (if width % 2 == 0 { half - 2 } else { half - 1 }) as u16,
            height: 10,
        },
        Area { x: x as u16, y: (y + 14) as u16, width: width as u16, height: 15 },
    )
}

/// Places the graphs and the forecast inside the weather panel.
pub fn weather_areas(x: u16, y: u16, width: u16) -> (areas: (Area, Area, Area))
    requires
        width >= 3,
        x + 1 + width / 2 <= u16::MAX,
        y + 14 <= u16::MAX,
    ensures
        areas == weather_layout(x as int, y as int, width as int),
{
    let half = width / 2;
    let temp_graph = Area { x: x + 1, y: y + 4, width: half, height: 10 };
    let rain_graph = Area {
        x: x + 1 + half,
        y: y + 4,
        width: if width % 2 == 0 { half - 2 } else { half - 1 },
        height: 10,
    };
    let forecast = Area { x, y: y + 14, width, height: 15 };
    (temp_graph, rain_graph, forecast)
}

/// The spaces between the current temperature and the conditions, and the
/// length of the rule under them, in a panel of the given width: the width
/// less six columns, the description's bytes and the temperature's characters;
/// and the width less two.
pub open spec fn current_conditions_layout(width: int, description: Seq<char>, temperature: Seq<char>) -> (int, int) {
    (width - 6 - encode_utf8(description).len() - temperature.len(), width - 2)
}

/// Lays out the row of the current temperature and conditions.
pub fn current_temp_layout(width: u16, condition: &WheatherCondition, temperature: &str) -> (layout: (usize, usize))
    requires
        width >= 6 + encode_utf8(condition.description@).len() + temperature@.len(),
    ensures
        layout.0 == current_conditions_layout(width as int, condition.description@, temperature@).0,
        layout.1 == current_conditions_layout(width as int, condition.description@, temperature@).1,
{
    let w = width as usize;
    let padding = w - 6 - condition.description.as_str().len() - temperature.unicode_len();
    (padding, w - 2)
}

/// The spaces between the date and the figures of a day of the forecast: the
/// width less fifty columns.
pub fn forecast_padding(width: u16) -> (padding: usize)
    requires
        width >= 50,
    ensures
        padding == width - 50,
{
    (width - 50) as usize
}


/// The time stamp, read as UTC seconds since the UNIX epoch, that an hourly
/// time text of the weather service denotes in the form `%Y-%m-%dT%H:%M`;
/// `None` when the text is not of that form.
pub uninterp spec fn stamp_seconds(text: Seq<char>) -> Option<int>;

/// `chrono::NaiveDateTime::parse_from_str(text, "%Y-%m-%dT%H:%M")`, then
/// `and_utc().timestamp()`. Claimed: whether it parses and the seconds it
/// gives depend on the text alone; a parsed stamp has no seconds (the form has
/// no seconds field, which chrono then takes as zero) and lies within the
/// dates chrono holds. Which texts parse, and to what, is not stated.
#[verifier::external_body]
fn parse_stamp(text: &str) -> (secs: Option<i64>)
    ensures
        secs is Some == stamp_seconds(text@) is Some,
        secs matches Some(v) ==> stamp_seconds(text@) == Some(v as int) && v % 60 == 0
            && MIN_UTC_SECS <= v <= MAX_UTC_SECS,
{
    match chrono::NaiveDateTime::parse_from_str(text, "%Y-%m-%dT%H:%M") {
        Ok(t) => Some(t.and_utc().timestamp()),
        Err(_) => None,
    }
}

/// The number of samples that a weather graph shows.
pub const GRAPH_SAMPLES: usize = 24;

/// Seconds in eight hours, the step between the labels of a graph's time axis.
pub const LABEL_STEP_SECS: i64 = 28800;

/// The time axis of a weather graph: for each shown sample the minutes since
/// the first, and the `HH:MM` labels at the start, after 8, 16 and 24 hours.
#[derive(Debug, PartialEq, Eq)]
pub struct TimeAxis {
    pub minutes: Vec<i64>,
    pub labels: Vec<String>,
}

/// Every time text parses.
pub open spec fn stamps_parse(times: Seq<String>) -> bool {
    forall|i: int| 0 <= i < times.len() ==> (#[trigger] stamp_seconds(times[i]@)) is Some
}

/// The seconds of the `i`-th time text.
pub open spec fn stamp_at(times: Seq<String>, i: int) -> int {
    stamp_seconds(times[i]@)->0
}

/// The axis can be drawn: there is a first sample, every text parses, and 24
/// hours after the first stamp still lies within the dates chrono holds.
pub open spec fn time_axis_defined(times: Seq<String>) -> bool {
    &&& times.len() > 0
    &&& stamps_parse(times)
    &&& stamp_at(times, 0) + 86400 <= MAX_UTC_SECS
}

/// `HH:MM` of the time of day of a stamp (read without a time zone).
pub open spec fn day_clock_text(secs: int) -> Seq<char> {
    clock_text((secs % 86400) / 3600, (secs % 3600) / 60)
}

/// The number of samples shown: at most 24.
pub open spec fn shown_samples(n: int) -> int {
    if n < GRAPH_SAMPLES { n } else { GRAPH_SAMPLES as int }
}

/// A graph shows the first 24 samples, or all of them when there are fewer.
pub proof fn law_at_most_a_day_of_samples(n: int)
    requires
        n >= 0,
    ensures
        shown_samples(n) <= 24,
        n >= 24 ==> shown_samples(n) == 24,
        n < 24 ==> shown_samples(n) == n,
{
}

fn clock_of(secs: i64) -> (s: String)
    ensures
        s@ == day_clock_text(secs as int),
{
    let r = secs % 86400;
    let tod: i64 = if r < 0 { r + 86400 } else { r };
    assert(tod == secs as int % 86400);
    assert(tod % 3600 == secs as int % 3600);
    let hour = (tod / 3600) as u32;
    let minute = ((tod % 3600) / 60) as u32;
    format_clock(hour, minute)
}

/// The time axis of a weather graph from the hourly time texts: `None` when
/// there are none, when one does not parse, or when the last label (24 hours
/// after the first stamp) lies beyond the dates chrono holds.
pub fn graph_time_axis(times: &Vec<String>) -> (axis: Option<TimeAxis>)
    ensures
        axis is None <==> !time_axis_defined(times@),
        axis matches Some(a) ==> a.minutes@.len() <= 24,
        axis matches Some(a) ==> (times@.len() >= 24 ==> a.minutes@.len() == 24),
        axis matches Some(a) ==> (times@.len() < 24 ==> a.minutes@.len() == times@.len()),
        axis matches Some(a) ==> {
            &&& a.minutes@.len() == shown_samples(times@.len() as int)
            &&& forall|i: int|
                0 <= i < a.minutes@.len() ==> a.minutes@[i] == (stamp_at(times@, i) - stamp_at(times@, 0))
                    / 60
            &&& a.labels@.len() == 4
            &&& forall|k: int|
                0 <= k < 4 ==> (#[trigger] a.labels@[k])@ == day_clock_text(
                    stamp_at(times@, 0) + LABEL_STEP_SECS * k,
                )
        },
{
    let n = times.len();
    let mut stamps: Vec<i64> = Vec::new();
    for i in 0..n
        invariant
            n == times@.len(),
            stamps@.len() == i,
            forall|j: int|
                0 <= j < i ==> stamp_seconds(times@[j]@) == Some(#[trigger] stamps@[j] as int)
                    && stamps@[j] % 60 == 0 && MIN_UTC_SECS <= stamps@[j] <= MAX_UTC_SECS,
    {
        match parse_stamp(times[i].as_str()) {
            Some(v) => stamps.push(v),
            None => {
                assert(!stamps_parse(times@));
                return None;
            },
        }
    }
    assert forall|i: int| 0 <= i < times@.len() implies (#[trigger] stamp_seconds(times@[i]@)) is Some by {
        assert(stamp_seconds(times@[i]@) == Some(stamps@[i] as int));
    }
    if n == 0 {
        return None;
    }
    let start = stamps[0];
    if start > MAX_UTC_SECS - 86400 {
        return None;
    }
    let shown = if n < GRAPH_SAMPLES { n } else { GRAPH_SAMPLES };
    let mut minutes: Vec<i64> = Vec::new();
    for i in 0..shown
        invariant
            shown <= n,
            0 < n,
            n == times@.len(),
            stamps@.len() == n,
            start == stamps@[0],
            forall|j: int|
                0 <= j < n ==> stamp_seconds(times@[j]@) == Some(#[trigger] stamps@[j] as int)
                    && stamps@[j] % 60 == 0 && MIN_UTC_SECS <= stamps@[j] <= MAX_UTC_SECS,
            minutes@.len() == i,
            forall|j: int|
                0 <= j < i ==> minutes@[j] == (stamp_at(times@, j) - stamp_at(times@, 0)) / 60,
    {
        let ghost sj = stamps@[i as int];
        assert(stamp_at(times@, i as int) == sj);
        minutes.push((stamps[i] - start) / 60);
    }
    let mut labels: Vec<String> = Vec::new();
    let mut k: i64 = 0;
    while k < 4
        invariant
            0 <= k <= 4,
            start + 86400 <= MAX_UTC_SECS,
            MIN_UTC_SECS <= start,
            labels@.len() == k,
            forall|j: int|
                0 <= j < k ==> (#[trigger] labels@[j])@ == day_clock_text(start + LABEL_STEP_SECS * j),
        decreases 4 - k,
    {
        labels.push(clock_of(start + LABEL_STEP_SECS * k));
        k = k + 1;
    }
    Some(TimeAxis { minutes, labels })
}

} // verus!
