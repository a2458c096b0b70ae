//! The calendar of a week: spans of timed states, points of timed events, windows of light
//! rules, conflicts, and what comes next.
use crate::automation::{ActiveWindow, AutomationRule, AutomationTrigger, SolarEvent, TimeBoundary};
use crate::clock::{format_minute, quotient, remainder, weekday_index};
use crate::date::{calendar_date, calendar_week_label};
use crate::schedule::{
    calendar_timed_event, enabled_timed_events, solar_event_minute, solar_on, winning_timed_event,
    TimedSlot,
};
use crate::spans::{count_until, scheduled_spans, Span};
use crate::text::{decimal_text, join, two_digit_text};
use crate::weather::{SolarForecastDay, WeatherStatus};
use vstd::prelude::*;
use vstd::string::*;

verus! {

/// The thresholds of a light rule as a page shows them, in watts per square metre.
#[derive(Debug)]
pub struct Thresholds {
    pub on_below: String,
    pub off_above: String,
}

/// What a day of the calendar shows. Its place is in hundredths of a percent of the day.
#[derive(Debug)]
pub struct CalendarEntryView {
    pub rule_id: u64,
    pub name: String,
    pub label: String,
    pub detail: String,
    pub enabled: bool,
    pub class: String,
    pub left: u32,
    pub width: u32,
    pub lane: usize,
    pub point: bool,
    pub conflict: bool,
    pub winner: bool,
    pub collision_index: usize,
}

/// A day of the calendar.
#[derive(Debug)]
pub struct CalendarDayView {
    pub index: usize,
    pub name: &'static str,
    pub date_label: String,
    pub is_today: bool,
    pub lane_count: usize,
    pub entries: Vec<CalendarEntryView>,
}

/// The state that timed rules set now, and what changes it next.
#[derive(Debug)]
pub struct CalendarSummaryView {
    pub state: &'static str,
    pub next: Option<String>,
}

/// Several timed rules act at one moment.
#[derive(Debug)]
pub struct CalendarConflictView {
    pub detail: String,
}

/// The calendar of a week.
#[derive(Debug)]
pub struct WeekCalendarView {
    pub timezone: String,
    pub week_label: String,
    pub current_left: u32,
    pub summary: Option<CalendarSummaryView>,
    pub has_entries: bool,
    pub conflicts: Vec<CalendarConflictView>,
    pub days: Vec<CalendarDayView>,
}

/// The mathematical value of an entry.
#[verifier::ext_equal]
pub struct Entry {
    pub rule_id: u64,
    pub name: Seq<char>,
    pub label: Seq<char>,
    pub detail: Seq<char>,
    pub enabled: bool,
    pub class: Seq<char>,
    pub left: int,
    pub width: int,
    pub lane: int,
    pub point: bool,
    pub conflict: bool,
    pub winner: bool,
    pub collision_index: int,
}

impl View for CalendarEntryView {
    type V = Entry;

    open spec fn view(&self) -> Entry {
        Entry {
            rule_id: self.rule_id,
            name: self.name@,
            label: self.label@,
            detail: self.detail@,
            enabled: self.enabled,
            class: self.class@,
            left: self.left as int,
            width: self.width as int,
            lane: self.lane as int,
            point: self.point,
            conflict: self.conflict,
            winner: self.winner,
            collision_index: self.collision_index as int,
        }
    }
}

/// The mathematical values of entries.
pub open spec fn shown(entries: Seq<CalendarEntryView>) -> Seq<Entry> {
    entries.map_values(|entry: CalendarEntryView| entry@)
}

/// Where a minute stands in a day, in hundredths of a percent, rounded half up.
pub open spec fn percent(minute: int) -> int {
    (minute * 10_000 + 720) / 1_440
}

/// Where a minute stands in a day, in hundredths of a percent.
pub fn calendar_percent(minute: u16) -> (hundredths: u32)
    ensures
        hundredths == percent(minute as int),
{
    (minute as u32 * 10_000 + 720) / 1_440
}

/// The clock time of a moment.
pub open spec fn moment_clock(moment: int) -> Seq<char> {
    crate::clock::minute_clock((moment % 1_440) as nat)
}

/// Spells the clock time of a moment.
pub fn calendar_absolute_time(moment: i128) -> (text: String)
    ensures
        text@ == moment_clock(moment as int),
{
    format_minute(remainder(moment, 1_440) as u16)
}

/// The name of the day of the week, Monday first.
pub open spec fn weekday_name(from_monday: int) -> Seq<char> {
    if from_monday == 0 {
        "Monday"@
    } else if from_monday == 1 {
        "Tuesday"@
    } else if from_monday == 2 {
        "Wednesday"@
    } else if from_monday == 3 {
        "Thursday"@
    } else if from_monday == 4 {
        "Friday"@
    } else if from_monday == 5 {
        "Saturday"@
    } else {
        "Sunday"@
    }
}

/// The name of the weekday of a day.
pub open spec fn day_name(day: int) -> Seq<char> {
    weekday_name((crate::clock::weekday(day) + 6) % 7)
}

/// The name of the weekday of a day.
pub fn calendar_day_name(day: i128) -> (name: &'static str)
    requires
        crate::clock::day_in_range(day as int),
    ensures
        name@ == day_name(day as int),
{
    let from_monday: usize = (weekday_index(day) + 6) % 7;
    if from_monday == 0 {
        "Monday"
    } else if from_monday == 1 {
        "Tuesday"
    } else if from_monday == 2 {
        "Wednesday"
    } else if from_monday == 3 {
        "Thursday"
    } else if from_monday == 4 {
        "Friday"
    } else if from_monday == 5 {
        "Saturday"
    } else {
        "Sunday"
    }
}

/// The short name of a day of the week, Monday first.
pub open spec fn short_day_name(index: int) -> Seq<char> {
    if index == 0 {
        "Mon"@
    } else if index == 1 {
        "Tue"@
    } else if index == 2 {
        "Wed"@
    } else if index == 3 {
        "Thu"@
    } else if index == 4 {
        "Fri"@
    } else if index == 5 {
        "Sat"@
    } else {
        "Sun"@
    }
}

fn short_day_text(index: usize) -> (name: &'static str)
    ensures
        name@ == short_day_name(index as int),
{
    if index == 0 {
        "Mon"
    } else if index == 1 {
        "Tue"
    } else if index == 2 {
        "Wed"
    } else if index == 3 {
        "Thu"
    } else if index == 4 {
        "Fri"
    } else if index == 5 {
        "Sat"
    } else {
        "Sun"
    }
}

/// The class of an entry.
pub open spec fn entry_class(kind: Seq<char>, action: Seq<char>, enabled: bool) -> Seq<char> {
    let class = "calendar-entry "@ + kind + " "@ + action;
    if enabled {
        class
    } else {
        class + " calendar-disabled"@
    }
}

fn calendar_entry_class(kind: &str, action: &str, enabled: bool) -> (class: String)
    ensures
        class@ == entry_class(kind@, action@, enabled),
{
    let mut class = "calendar-entry ".to_owned();
    class.append(kind);
    class.append(" ");
    class.append(action);
    if !enabled {
        class.append(" calendar-disabled");
    }
    class
}

/// What a span says of itself.
pub open spec fn span_detail(
    rule: AutomationRule,
    span: Span,
    week_start: int,
    week_end: int,
) -> Seq<char> {
    let state = if rule.turn_on {
        "on"@
    } else {
        "off"@
    };
    if span.start <= week_start && span.end >= week_end {
        "Scheduled "@ + state + " all week · carried over from "@ + rule.name@
    } else {
        "Scheduled "@ + state + " "@ + moment_clock(span.start as int) + "–"@ + moment_clock(
            span.end as int,
        ) + " · set by "@ + rule.name@
    }
}

/// The first minute of a day that a span covers.
pub open spec fn segment_start(span: Span, day: int) -> int {
    if span.start >= day * 1_440 {
        span.start - day * 1_440
    } else {
        0
    }
}

/// The minute of a day that a span ends before.
pub open spec fn segment_end(span: Span, day: int) -> int {
    if span.end <= (day + 1) * 1_440 {
        span.end - day * 1_440
    } else {
        1_440
    }
}

/// What a day shows of a span, where the span covers any of it.
pub open spec fn span_entry(
    rule: AutomationRule,
    span: Span,
    week_start: int,
    week_end: int,
    day: int,
) -> Option<Entry> {
    let start = segment_start(span, day);
    let end = segment_end(span, day);
    if start < end {
        Some(
            Entry {
                rule_id: rule.id,
                name: rule.name@,
                label: if rule.turn_on {
                    "ON"@
                } else {
                    "OFF"@
                },
                detail: span_detail(rule, span, week_start, week_end),
                enabled: true,
                class: if rule.turn_on {
                    "calendar-entry scheduled-on"@
                } else {
                    "calendar-entry scheduled-off"@
                },
                left: percent(start),
                width: percent(end - start),
                lane: 0,
                point: false,
                conflict: false,
                winner: false,
                collision_index: 0,
            },
        )
    } else {
        None
    }
}

fn span_detail_text(rule: &AutomationRule, span: Span, week_start: i128, week_end: i128) -> (text:
    String)
    ensures
        text@ == span_detail(*rule, span, week_start as int, week_end as int),
{
    let mut text = "Scheduled ".to_owned();
    if rule.turn_on {
        text.append("on");
    } else {
        text.append("off");
    }
    if span.start <= week_start && span.end >= week_end {
        text.append(" all week · carried over from ");
    } else {
        text.append(" ");
        text.append(calendar_absolute_time(span.start).as_str());
        text.append("–");
        text.append(calendar_absolute_time(span.end).as_str());
        text.append(" · set by ");
    }
    text.append(rule.name.as_str());
    text
}

fn scheduled_state_span(
    rule: &AutomationRule,
    span: Span,
    week_start: i128,
    week_end: i128,
    day: i128,
) -> (entry: Option<CalendarEntryView>)
    requires
        crate::clock::day_in_range(day as int),
        crate::clock::day_in_range(day + 1),
        -0x1_0000_0000_0000_0000_0000 <= span.start <= span.end <= 0x1_0000_0000_0000_0000_0000,
    ensures
        match entry {
            Some(entry) => span_entry(*rule, span, week_start as int, week_end as int, day as int)
                == Some(entry@),
            None => span_entry(*rule, span, week_start as int, week_end as int, day as int) is None,
        },
{
    let start: i128 = if span.start >= day * 1_440 {
        span.start - day * 1_440
    } else {
        0
    };
    let end: i128 = if span.end <= (day + 1) * 1_440 {
        span.end - day * 1_440
    } else {
        1_440
    };
    if start >= end {
        return None;
    }
    let (label, class) = if rule.turn_on {
        ("ON", "calendar-entry scheduled-on")
    } else {
        ("OFF", "calendar-entry scheduled-off")
    };
    Some(
        CalendarEntryView {
            rule_id: rule.id,
            name: rule.name.clone(),
            label: label.to_owned(),
            detail: span_detail_text(rule, span, week_start, week_end),
            enabled: true,
            class: class.to_owned(),
            left: calendar_percent(start as u16),
            width: calendar_percent((end - start) as u16),
            lane: 0,
            point: false,
            conflict: false,
            winner: false,
            collision_index: 0,
        },
    )
}

/// What a day shows of the first `count` spans.
pub open spec fn span_entries(
    rules: Seq<AutomationRule>,
    spans: Seq<Span>,
    week_start: int,
    week_end: int,
    day: int,
    count: int,
) -> Seq<Entry>
    decreases count,
{
    if count <= 0 {
        seq![]
    } else {
        let front = span_entries(rules, spans, week_start, week_end, day, count - 1);
        let span = spans[count - 1];
        match span_entry(rules[span.rule as int], span, week_start, week_end, day) {
            Some(entry) => front.push(entry),
            None => front,
        }
    }
}

/// What the dial of a clock shows at a minute, with the sun's direction behind it for a solar
/// rule.
pub open spec fn boundary_label(rule: AutomationRule, minute: int) -> Seq<char> {
    let hour = (minute / 60) % 12;
    let time = crate::text::decimal(
        if hour < 1 {
            1
        } else {
            hour as nat
        },
    ) + ":"@ + crate::text::two_digits((minute % 60) as nat);
    match rule.trigger {
        AutomationTrigger::Solar { event, .. } => match event {
            SolarEvent::Sunrise => time + " ↑"@,
            SolarEvent::Sunset => time + " ↓"@,
        },
        _ => time,
    }
}

fn calendar_boundary_label(rule: &AutomationRule, minute: u16) -> (text: String)
    ensures
        text@ == boundary_label(*rule, minute as int),
{
    let hour: u16 = (minute / 60) % 12;
    let mut text = decimal_text(
        if hour < 1 {
            1
        } else {
            hour as u64
        },
    );
    text.append(":");
    text.append(two_digit_text((minute % 60) as u64).as_str());
    match rule.trigger {
        AutomationTrigger::Solar { event, .. } => match event {
            SolarEvent::Sunrise => text.append(" ↑"),
            SolarEvent::Sunset => text.append(" ↓"),
        },
        _ => {},
    }
    text
}

/// The kind of a timed rule.
pub open spec fn timed_kind(rule: AutomationRule) -> Seq<char> {
    match rule.trigger {
        AutomationTrigger::Solar { .. } => "solar"@,
        _ => "fixed"@,
    }
}

/// The slot at a moment.
pub open spec fn slot_at(slots: Seq<TimedSlot>, moment: int) -> Option<TimedSlot> {
    let count = crate::spans::slots_until(slots, moment);
    if count > 0 && slots[count - 1].at == moment {
        Some(slots[count - 1])
    } else {
        None
    }
}

/// Where a rule of that identity stands among the rules of a slot.
pub open spec fn position_of(
    rules: Seq<AutomationRule>,
    listed: Seq<usize>,
    id: u64,
    from: int,
) -> Option<int>
    decreases listed.len() - from,
{
    if from < 0 || from >= listed.len() {
        None
    } else if rules[listed[from] as int].id == id {
        Some(from)
    } else {
        position_of(rules, listed, id, from + 1)
    }
}

/// Where a rule stands among the enabled timed rules of its moment.
pub open spec fn collision(
    rules: Seq<AutomationRule>,
    slots: Seq<TimedSlot>,
    rule: int,
    moment: int,
) -> Option<int> {
    match slot_at(slots, moment) {
        Some(slot) => position_of(rules, slot.rules@, rules[rule].id, 0),
        None => None,
    }
}

/// Whether an enabled timed rule shares its moment with another.
pub open spec fn in_conflict(
    rules: Seq<AutomationRule>,
    slots: Seq<TimedSlot>,
    rule: int,
    moment: int,
) -> bool {
    collision(rules, slots, rule, moment) is Some && rules[rule].enabled && slot_at(
        slots,
        moment,
    )->0.rules@.len() > 1
}

/// Whether a timed rule wins a moment that it shares.
pub open spec fn wins_conflict(
    rules: Seq<AutomationRule>,
    slots: Seq<TimedSlot>,
    rule: int,
    moment: int,
) -> bool {
    in_conflict(rules, slots, rule, moment) && rules[crate::schedule::winner(
        slot_at(slots, moment)->0,
    )].id == rules[rule].id
}

/// What a day shows of a timed event.
pub open spec fn point_entry(
    rules: Seq<AutomationRule>,
    slots: Seq<TimedSlot>,
    rule: int,
    day: int,
    minute: int,
) -> Entry {
    let shown_rule = rules[rule];
    let moment = day * 1_440 + minute;
    let conflict = in_conflict(rules, slots, rule, moment);
    let winner = wins_conflict(rules, slots, rule, moment);
    let class = entry_class(
        timed_kind(shown_rule),
        if shown_rule.turn_on {
            "turn-on"@
        } else {
            "turn-off"@
        },
        shown_rule.enabled,
    );
    let marked = if conflict {
        class + " calendar-conflict"@
    } else {
        class
    };
    Entry {
        rule_id: shown_rule.id,
        name: shown_rule.name@,
        label: boundary_label(shown_rule, minute),
        detail: crate::clock::minute_clock(minute as nat) + " · "@ + (if shown_rule.turn_on {
            "Turn on"@
        } else {
            "Turn off"@
        }),
        enabled: shown_rule.enabled,
        class: if winner {
            marked + " calendar-conflict-winner"@
        } else {
            marked
        },
        left: percent(minute),
        width: 0,
        lane: 0,
        point: true,
        conflict,
        winner,
        collision_index: match collision(rules, slots, rule, moment) {
            Some(index) => index,
            None => 0,
        },
    }
}

/// What a day shows of the timed events of the first `count` rules.
pub open spec fn point_entries(
    rules: Seq<AutomationRule>,
    slots: Seq<TimedSlot>,
    day: int,
    solar: Option<SolarForecastDay>,
    count: int,
) -> Seq<Entry>
    decreases count,
{
    if count <= 0 {
        seq![]
    } else {
        let front = point_entries(rules, slots, day, solar, count - 1);
        match crate::schedule::timed_minute(rules[count - 1], day, solar) {
            Some(minute) => front.push(point_entry(rules, slots, count - 1, day, minute)),
            None => front,
        }
    }
}

fn find_position(rules: &Vec<AutomationRule>, listed: &Vec<usize>, id: u64) -> (position: Option<
    usize,
>)
    requires
        forall|j: int| 0 <= j < listed@.len() ==> #[trigger] listed@[j] < rules@.len(),
    ensures
        match position {
            Some(position) => position_of(rules@, listed@, id, 0) == Some(position as int),
            None => position_of(rules@, listed@, id, 0) is None,
        },
{
    let mut index: usize = 0;
    while index < listed.len()
        invariant
            index <= listed@.len(),
            forall|j: int| 0 <= j < listed@.len() ==> #[trigger] listed@[j] < rules@.len(),
            position_of(rules@, listed@, id, 0) == position_of(rules@, listed@, id, index as int),
        decreases listed@.len() - index,
    {
        if rules[listed[index]].id == id {
            return Some(index);
        }
        index = index + 1;
    }
    None
}

fn calendar_point(
    rules: &Vec<AutomationRule>,
    slots: &Vec<TimedSlot>,
    index: usize,
    day: i128,
    minute: u16,
) -> (entry: CalendarEntryView)
    requires
        index < rules@.len(),
        crate::schedule::slots_in_order(rules@, slots@),
        crate::clock::day_in_range(day as int),
    ensures
        entry@ == point_entry(rules@, slots@, index as int, day as int, minute as int),
{
    let rule = &rules[index];
    let moment: i128 = day * 1_440 + minute as i128;
    let count: usize = count_until(slots, moment);
    let mut position: Option<usize> = None;
    let mut conflict = false;
    let mut winner = false;
    if count > 0 && slots[count - 1].at == moment {
        let slot = &slots[count - 1];
        proof {
            assert(crate::schedule::slot_in_order(rules@, slots@[count - 1]));
        }
        position = find_position(rules, &slot.rules, rule.id);
        if position.is_some() && rule.enabled && slot.rules.len() > 1 {
            conflict = true;
            let won: usize = winning_timed_event(slot);
            proof {
                assert(slot.rules@[slot.rules@.len() - 1] == won);
            }
            winner = rules[won].id == rule.id;
        }
    }
    let (action, turn) = if rule.turn_on {
        ("Turn on", "turn-on")
    } else {
        ("Turn off", "turn-off")
    };
    let kind = match rule.trigger {
        AutomationTrigger::Solar { .. } => "solar",
        _ => "fixed",
    };
    let mut class = calendar_entry_class(kind, turn, rule.enabled);
    if conflict {
        class.append(" calendar-conflict");
    }
    if winner {
        class.append(" calendar-conflict-winner");
    }
    let mut detail = format_minute(minute);
    detail.append(" · ");
    detail.append(action);
    CalendarEntryView {
        rule_id: rule.id,
        name: rule.name.clone(),
        label: calendar_boundary_label(rule, minute),
        detail,
        enabled: rule.enabled,
        class,
        left: calendar_percent(minute),
        width: 0,
        lane: 0,
        point: true,
        conflict,
        winner,
        collision_index: match position {
            Some(position) => position,
            None => 0,
        },
    }
}

/// The minute of the day on which an edge of a window falls, where that is known.
pub open spec fn boundary_minute(
    boundary: TimeBoundary,
    solar: Option<SolarForecastDay>,
) -> Option<int> {
    match boundary {
        TimeBoundary::Fixed { minute_of_day } => Some(minute_of_day as int),
        TimeBoundary::Solar { event, offset_minutes } => match solar {
            Some(solar) => Some(crate::schedule::solar_minute(event, offset_minutes as int, solar)),
            None => None,
        },
    }
}

fn calendar_boundary_minute(boundary: TimeBoundary, solar: Option<SolarForecastDay>) -> (minute:
    Option<u16>)
    ensures
        match minute {
            Some(minute) => boundary_minute(boundary, solar) == Some(minute as int),
            None => boundary_minute(boundary, solar) is None,
        },
{
    match boundary {
        TimeBoundary::Fixed { minute_of_day } => Some(minute_of_day),
        TimeBoundary::Solar { event, offset_minutes } => match solar {
            Some(solar) => Some(solar_event_minute(event, offset_minutes, solar)),
            None => None,
        },
    }
}

/// The window of a light rule on a day, in minutes. A rule without a window has the whole day.
pub open spec fn window_minutes(
    window: Option<ActiveWindow>,
    solar: Option<SolarForecastDay>,
) -> Option<(int, int)> {
    match window {
        None => Some((0, 1_440)),
        Some(window) => match (
            boundary_minute(window.start, solar),
            boundary_minute(window.end, solar),
        ) {
            (Some(start), Some(end)) => Some((start, end)),
            _ => None,
        },
    }
}

fn calendar_window(window: Option<ActiveWindow>, solar: Option<SolarForecastDay>) -> (minutes:
    Option<(u16, u16)>)
    ensures
        match minutes {
            Some(minutes) => window_minutes(window, solar) == Some(
                (minutes.0 as int, minutes.1 as int),
            ),
            None => window_minutes(window, solar) is None,
        },
{
    match window {
        None => Some((0, 1_440)),
        Some(window) => match (
            calendar_boundary_minute(window.start, solar),
            calendar_boundary_minute(window.end, solar),
        ) {
            (Some(start), Some(end)) => Some((start, end)),
            _ => None,
        },
    }
}

/// Whether the window of a light rule fits a day: where it is known and runs over midnight, it
/// begins by the end of the day.
pub open spec fn window_fits(rule: AutomationRule, solar: Option<SolarForecastDay>) -> bool {
    match rule.trigger {
        AutomationTrigger::LightLevel { active_window, .. } => match window_minutes(
            active_window,
            solar,
        ) {
            Some((start, end)) => start <= end || start <= 1_440,
            None => true,
        },
        _ => true,
    }
}

/// Whether the windows of all rules fit a day.
pub open spec fn windows_fit(rules: Seq<AutomationRule>, solar: Option<SolarForecastDay>) -> bool {
    forall|i: int| 0 <= i < rules.len() ==> window_fits(#[trigger] rules[i], solar)
}

/// Whether the windows of all rules fit each day of the week that begins on a Monday.
pub open spec fn week_fits(
    rules: Seq<AutomationRule>,
    forecast: Seq<SolarForecastDay>,
    monday: int,
) -> bool {
    forall|i: int|
        0 <= i < 7 ==> windows_fit(rules, #[trigger] crate::schedule::solar_for(forecast, monday + i))
}

/// Whether the windows of all rules fit each day of the week that a forecast is of.
pub fn fits_calendar(rules: &Vec<AutomationRule>, weather: &WeatherStatus) -> (result: bool)
    ensures
        result == week_fits(
            rules@,
            weather.solar_days@,
            monday_of(weather.current_day as int),
        ),
{
    let weekday: usize = weekday_index(weather.current_day as i128);
    let monday: i128 = weather.current_day as i128 - ((weekday + 6) % 7) as i128;
    let ghost forecast = weather.solar_days@;
    let mut day: usize = 0;
    while day < 7
        invariant
            day <= 7,
            forecast == weather.solar_days@,
            monday == monday_of(weather.current_day as int),
            crate::schedule::monday_in_range(monday as int),
            forall|i: int|
                0 <= i < day ==> windows_fit(
                    rules@,
                    #[trigger] crate::schedule::solar_for(forecast, monday + i),
                ),
        decreases 7 - day,
    {
        let solar = solar_on(&weather.solar_days, monday + day as i128);
        let mut index: usize = 0;
        while index < rules.len()
            invariant
                day < 7,
                index <= rules@.len(),
                forecast == weather.solar_days@,
                monday == monday_of(weather.current_day as int),
                solar == crate::schedule::solar_for(forecast, monday + day),
                forall|i: int| 0 <= i < index ==> window_fits(#[trigger] rules@[i], solar),
            decreases rules@.len() - index,
        {
            let minutes = match rules[index].trigger {
                AutomationTrigger::LightLevel { active_window, .. } => calendar_window(
                    active_window,
                    solar,
                ),
                _ => None,
            };
            let fits = match minutes {
                Some((start, end)) => start <= end || start <= 1_440,
                None => true,
            };
            if !fits {
                proof {
                    assert(!window_fits(rules@[index as int], solar));
                    assert(!windows_fit(
                        rules@,
                        crate::schedule::solar_for(forecast, monday + day),
                    ));
                }
                return false;
            }
            index = index + 1;
        }
        day = day + 1;
    }
    true
}

/// The pieces of a day in which a light rule controls a plug: none, one, or two where its
/// window runs over midnight.
pub open spec fn window_pieces(
    rule: AutomationRule,
    solar: Option<SolarForecastDay>,
) -> Seq<(int, int)> {
    match rule.trigger {
        AutomationTrigger::LightLevel { active_window, .. } => match window_minutes(
            active_window,
            solar,
        ) {
            Some((start, end)) => if start < end {
                seq![(start, end)]
            } else if start > end {
                seq![(start, 1_440int), (0int, end)]
            } else {
                seq![]
            },
            None => seq![],
        },
        _ => seq![],
    }
}

/// What a window says of itself.
pub open spec fn window_detail(start: int, end: int) -> Seq<char> {
    if start == 0 && end == 1_440 {
        "Active all day"@
    } else {
        "Active "@ + crate::clock::minute_clock(start as nat) + "–"@ + (if end == 1_440 {
            "12:00 AM"@
        } else {
            crate::clock::minute_clock(end as nat)
        })
    }
}

/// What a day shows of a piece of the window of a light rule.
pub open spec fn window_entry(
    rule: AutomationRule,
    thresholds: Thresholds,
    start: int,
    end: int,
    lane: int,
) -> Entry {
    Entry {
        rule_id: rule.id,
        name: rule.name@,
        label: "AUTO · ≤ "@ + thresholds.on_below@ + " W/m²"@,
        detail: window_detail(start, end) + " · turns off at ≥ "@ + thresholds.off_above@
            + " W/m²"@,
        enabled: rule.enabled,
        class: entry_class("light-window"@, ""@, rule.enabled),
        left: percent(start),
        width: percent(end - start),
        lane,
        point: false,
        conflict: false,
        winner: false,
        collision_index: 0,
    }
}

fn calendar_window_entry(
    rule: &AutomationRule,
    thresholds: &Thresholds,
    start: u16,
    end: u16,
    lane: usize,
) -> (entry: CalendarEntryView)
    requires
        start <= end,
    ensures
        entry@ == window_entry(*rule, *thresholds, start as int, end as int, lane as int),
{
    let mut detail = if start == 0 && end == 1_440 {
        "Active all day".to_owned()
    } else {
        let mut text = "Active ".to_owned();
        text.append(format_minute(start).as_str());
        text.append("–");
        if end == 1_440 {
            text.append("12:00 AM");
        } else {
            text.append(format_minute(end).as_str());
        }
        text
    };
    detail.append(" · turns off at ≥ ");
    detail.append(thresholds.off_above.as_str());
    detail.append(" W/m²");
    let mut label = "AUTO · ≤ ".to_owned();
    label.append(thresholds.on_below.as_str());
    label.append(" W/m²");
    CalendarEntryView {
        rule_id: rule.id,
        name: rule.name.clone(),
        label,
        detail,
        enabled: rule.enabled,
        class: calendar_entry_class("light-window", "", rule.enabled),
        left: calendar_percent(start),
        width: calendar_percent(end - start),
        lane,
        point: false,
        conflict: false,
        winner: false,
        collision_index: 0,
    }
}

/// The lanes taken after the first `count` rules: each light rule that shows anything takes
/// one of its own.
pub open spec fn lanes_after(
    rules: Seq<AutomationRule>,
    solar: Option<SolarForecastDay>,
    first_lane: int,
    count: int,
) -> int
    decreases count,
{
    if count <= 0 {
        first_lane
    } else {
        let lane = lanes_after(rules, solar, first_lane, count - 1);
        if window_pieces(rules[count - 1], solar).len() > 0 {
            lane + 1
        } else {
            lane
        }
    }
}

/// What a day shows of the windows of the first `count` rules.
pub open spec fn window_entries(
    rules: Seq<AutomationRule>,
    thresholds: Seq<Thresholds>,
    solar: Option<SolarForecastDay>,
    first_lane: int,
    count: int,
) -> Seq<Entry>
    decreases count,
{
    if count <= 0 {
        seq![]
    } else {
        let pieces = window_pieces(rules[count - 1], solar);
        let lane = lanes_after(rules, solar, first_lane, count - 1);
        window_entries(rules, thresholds, solar, first_lane, count - 1) + Seq::new(
            pieces.len(),
            |i: int|
                window_entry(
                    rules[count - 1],
                    thresholds[count - 1],
                    pieces[i].0,
                    pieces[i].1,
                    lane,
                ),
        )
    }
}

/// What a day shows apart from light: spans first, then points.
pub open spec fn timed_entries(
    rules: Seq<AutomationRule>,
    slots: Seq<TimedSlot>,
    spans: Seq<Span>,
    forecast: Seq<SolarForecastDay>,
    monday: int,
    index: int,
) -> Seq<Entry> {
    let day = monday + index;
    span_entries(
        rules,
        spans,
        monday * 1_440,
        (monday + 7) * 1_440,
        day,
        spans.len() as int,
    ) + point_entries(
        rules,
        slots,
        day,
        crate::schedule::solar_for(forecast, day),
        rules.len() as int,
    )
}

/// The lane of the first light rule of a day: below what is timed, if there is any.
pub open spec fn first_light_lane(timed: Seq<Entry>) -> int {
    if timed.len() > 0 {
        1
    } else {
        0
    }
}

/// Whether a view shows a day of the calendar.
pub open spec fn shows_day(
    view: CalendarDayView,
    rules: Seq<AutomationRule>,
    thresholds: Seq<Thresholds>,
    slots: Seq<TimedSlot>,
    spans: Seq<Span>,
    forecast: Seq<SolarForecastDay>,
    monday: int,
    current_day: int,
    index: int,
) -> bool {
    let day = monday + index;
    let solar = crate::schedule::solar_for(forecast, day);
    let timed = timed_entries(rules, slots, spans, forecast, monday, index);
    let first_lane = first_light_lane(timed);
    let lanes = lanes_after(rules, solar, first_lane, rules.len() as int);
    &&& view.index == index
    &&& view.name@ == short_day_name(index)
    &&& view.date_label@ == crate::date::date_label(day)
    &&& view.is_today == (day == current_day)
    &&& shown(view.entries@) == timed + window_entries(
        rules,
        thresholds,
        solar,
        first_lane,
        rules.len() as int,
    )
    &&& view.lane_count == (if lanes < 1 {
        1
    } else {
        lanes
    })
}

proof fn lemma_lanes_bounded(
    rules: Seq<AutomationRule>,
    solar: Option<SolarForecastDay>,
    first_lane: int,
    count: int,
)
    requires
        0 <= count,
        0 <= first_lane,
    ensures
        first_lane <= lanes_after(rules, solar, first_lane, count) <= first_lane + count,
    decreases count,
{
    if count > 0 {
        lemma_lanes_bounded(rules, solar, first_lane, count - 1);
    }
}

fn push_timed_entries(
    entries: &mut Vec<CalendarEntryView>,
    rules: &Vec<AutomationRule>,
    slots: &Vec<TimedSlot>,
    spans: &Vec<Span>,
    forecast: &Vec<SolarForecastDay>,
    monday: i128,
    index: usize,
)
    requires
        old(entries)@.len() == 0,
        crate::schedule::monday_in_range(monday as int),
        index < 7,
        crate::schedule::slots_in_order(rules@, slots@),
        crate::spans::are_spans(
            spans@,
            slots@,
            rules@,
            monday * 1_440,
            (monday + 7) * 1_440,
        ),
    ensures
        shown(final(entries)@) == timed_entries(
            rules@,
            slots@,
            spans@,
            forecast@,
            monday as int,
            index as int,
        ),
{
    let day: i128 = monday + index as i128;
    let week_start: i128 = monday * 1_440;
    let week_end: i128 = (monday + 7) * 1_440;
    let mut next: usize = 0;
    proof {
        assert(shown(entries@) =~= seq![]);
    }
    while next < spans.len()
        invariant
            next <= spans@.len(),
            crate::schedule::monday_in_range(monday as int),
            index < 7,
            day == monday + index,
            week_start == monday * 1_440,
            week_end == (monday + 7) * 1_440,
            crate::spans::are_spans(
                spans@,
                slots@,
                rules@,
                week_start as int,
                week_end as int,
            ),
            shown(entries@) == span_entries(
                rules@,
                spans@,
                week_start as int,
                week_end as int,
                day as int,
                next as int,
            ),
        decreases spans@.len() - next,
    {
        let span = spans[next];
        proof {
            assert(spans@[next as int] == span);
        }
        let ghost before = entries@;
        match scheduled_state_span(&rules[span.rule], span, week_start, week_end, day) {
            Some(entry) => {
                entries.push(entry);
                proof {
                    assert(shown(entries@) =~= shown(before).push(entry@));
                }
            },
            None => {},
        }
        next = next + 1;
    }
    let solar = solar_on(forecast, day);
    let ghost spanned = shown(entries@);
    let mut rule: usize = 0;
    proof {
        assert(shown(entries@) =~= spanned + seq![]);
    }
    while rule < rules.len()
        invariant
            rule <= rules@.len(),
            crate::schedule::monday_in_range(monday as int),
            index < 7,
            day == monday + index,
            solar == crate::schedule::solar_for(forecast@, day as int),
            crate::schedule::slots_in_order(rules@, slots@),
            shown(entries@) == spanned + point_entries(
                rules@,
                slots@,
                day as int,
                solar,
                rule as int,
            ),
        decreases rules@.len() - rule,
    {
        let ghost before = entries@;
        match calendar_timed_event(&rules[rule], day, solar) {
            Some(minute) => {
                let entry = calendar_point(rules, slots, rule, day, minute);
                entries.push(entry);
                proof {
                    assert(shown(entries@) =~= shown(before).push(entry@));
                    assert(shown(entries@) =~= spanned + point_entries(
                        rules@,
                        slots@,
                        day as int,
                        solar,
                        rule + 1,
                    ));
                }
            },
            None => {},
        }
        rule = rule + 1;
    }
}

fn push_windows(
    entries: &mut Vec<CalendarEntryView>,
    rules: &Vec<AutomationRule>,
    thresholds: &Vec<Thresholds>,
    solar: Option<SolarForecastDay>,
    first_lane: usize,
) -> (lanes: usize)
    requires
        thresholds@.len() == rules@.len(),
        windows_fit(rules@, solar),
        first_lane <= 1,
        rules@.len() < usize::MAX,
    ensures
        lanes == lanes_after(rules@, solar, first_lane as int, rules@.len() as int),
        shown(final(entries)@) == shown(old(entries)@) + window_entries(
            rules@,
            thresholds@,
            solar,
            first_lane as int,
            rules@.len() as int,
        ),
{
    let ghost timed = shown(entries@);
    let mut lane: usize = first_lane;
    let mut index: usize = 0;
    proof {
        assert(shown(entries@) =~= timed + seq![]);
    }
    while index < rules.len()
        invariant
            index <= rules@.len(),
            rules@.len() < usize::MAX,
            thresholds@.len() == rules@.len(),
            windows_fit(rules@, solar),
            first_lane <= 1,
            lane == lanes_after(rules@, solar, first_lane as int, index as int),
            shown(entries@) == timed + window_entries(
                rules@,
                thresholds@,
                solar,
                first_lane as int,
                index as int,
            ),
        decreases rules@.len() - index,
    {
        let ghost before = entries@;
        let ghost pieces = window_pieces(rules@[index as int], solar);
        let rule = &rules[index];
        proof {
            assert(window_fits(rules@[index as int], solar));
            lemma_lanes_bounded(rules@, solar, first_lane as int, index as int);
        }
        let minutes = match rule.trigger {
            AutomationTrigger::LightLevel { active_window, .. } => calendar_window(
                active_window,
                solar,
            ),
            _ => None,
        };
        let ghost lane_before = lane as int;
        match minutes {
            Some((start, end)) => {
                if start < end {
                    entries.push(
                        calendar_window_entry(rule, &thresholds[index], start, end, lane),
                    );
                    lane = lane + 1;
                } else if start > end {
                    entries.push(
                        calendar_window_entry(rule, &thresholds[index], start, 1_440, lane),
                    );
                    entries.push(calendar_window_entry(rule, &thresholds[index], 0, end, lane));
                    lane = lane + 1;
                }
            },
            None => {},
        }
        proof {
            let added = Seq::new(
                pieces.len(),
                |i: int|
                    window_entry(
                        rules@[index as int],
                        thresholds@[index as int],
                        pieces[i].0,
                        pieces[i].1,
                        lane_before,
                    ),
            );
            assert(shown(entries@) =~= shown(before) + added);
            assert(window_entries(rules@, thresholds@, solar, first_lane as int, index + 1)
                =~= window_entries(rules@, thresholds@, solar, first_lane as int, index as int)
                + added);
        }
        index = index + 1;
    }
    lane
}

/// A day of the calendar.
fn calendar_day(
    rules: &Vec<AutomationRule>,
    thresholds: &Vec<Thresholds>,
    slots: &Vec<TimedSlot>,
    spans: &Vec<Span>,
    forecast: &Vec<SolarForecastDay>,
    monday: i128,
    current_day: i64,
    index: usize,
) -> (view: CalendarDayView)
    requires
        thresholds@.len() == rules@.len(),
        windows_fit(rules@, crate::schedule::solar_for(forecast@, monday + index)),
        rules@.len() < usize::MAX,
        crate::schedule::monday_in_range(monday as int),
        index < 7,
        crate::schedule::slots_in_order(rules@, slots@),
        crate::spans::are_spans(
            spans@,
            slots@,
            rules@,
            monday * 1_440,
            (monday + 7) * 1_440,
        ),
    ensures
        shows_day(
            view,
            rules@,
            thresholds@,
            slots@,
            spans@,
            forecast@,
            monday as int,
            current_day as int,
            index as int,
        ),
{
    let day: i128 = monday + index as i128;
    let mut entries: Vec<CalendarEntryView> = Vec::new();
    push_timed_entries(&mut entries, rules, slots, spans, forecast, monday, index);
    let first_lane: usize = if entries.len() > 0 {
        1
    } else {
        0
    };
    proof {
        assert(shown(entries@).len() == entries@.len());
    }
    let solar = solar_on(forecast, day);
    let lanes: usize = push_windows(&mut entries, rules, thresholds, solar, first_lane);
    CalendarDayView {
        index,
        name: short_day_text(index),
        date_label: calendar_date(day),
        is_today: day == current_day as i128,
        lane_count: if lanes < 1 {
            1
        } else {
            lanes
        },
        entries,
    }
}

/// The next slot, from the slot `from` on, whose winner sets another state.
pub open spec fn next_change(
    slots: Seq<TimedSlot>,
    rules: Seq<AutomationRule>,
    on: bool,
    from: int,
) -> Option<int>
    decreases slots.len() - from,
{
    if from < 0 || from >= slots.len() {
        None
    } else if crate::spans::sets_on(rules, slots[from]) != on {
        Some(from)
    } else {
        next_change(slots, rules, on, from + 1)
    }
}

/// A state in capitals.
pub open spec fn state_name(on: bool) -> Seq<char> {
    if on {
        "ON"@
    } else {
        "OFF"@
    }
}

fn state_text(on: bool) -> (text: &'static str)
    ensures
        text@ == state_name(on),
{
    if on {
        "ON"
    } else {
        "OFF"
    }
}

/// A day as it is called from another.
pub open spec fn relative_day(day: int, current_day: int) -> Seq<char> {
    if day == current_day {
        "today"@
    } else if day == current_day + 1 {
        "tomorrow"@
    } else {
        day_name(day)
    }
}

/// What changes the state next, in words.
pub open spec fn change_text(
    slots: Seq<TimedSlot>,
    rules: Seq<AutomationRule>,
    current_at: int,
    change: int,
) -> Seq<char> {
    let rule = rules[crate::schedule::winner(slots[change])];
    let at = slots[change].at as int;
    "Next: "@ + state_name(rule.turn_on) + " "@ + relative_day(at / 1_440, current_at / 1_440)
        + " at "@ + moment_clock(at) + " · "@ + rule.name@
}

/// Whether a summary says what timed rules set now and next. There is none before the first
/// slot.
pub open spec fn summarises(
    summary: Option<CalendarSummaryView>,
    slots: Seq<TimedSlot>,
    rules: Seq<AutomationRule>,
    current_at: int,
) -> bool {
    match crate::spans::ruling(slots, current_at) {
        None => summary is None,
        Some(rule) => {
            let on = rules[rule].turn_on;
            &&& summary is Some
            &&& summary->0.state@ == state_name(on)
            &&& match next_change(
                slots,
                rules,
                on,
                crate::spans::slots_until(slots, current_at),
            ) {
                None => summary->0.next is None,
                Some(change) => summary->0.next is Some && summary->0.next->0@ == change_text(
                    slots,
                    rules,
                    current_at,
                    change,
                ),
            }
        },
    }
}

/// Whether the moments of slots fall on days that the calendar can name.
pub open spec fn slots_in_range(slots: Seq<TimedSlot>) -> bool {
    forall|k: int|
        0 <= k < slots.len() ==> crate::clock::day_in_range((#[trigger] slots[k]).at as int / 1_440)
}

/// What timed rules set now, and what changes it next.
pub fn calendar_summary(
    current_at: i128,
    slots: &Vec<TimedSlot>,
    rules: &Vec<AutomationRule>,
) -> (summary: Option<CalendarSummaryView>)
    requires
        crate::schedule::slots_in_order(rules@, slots@),
        slots_in_range(slots@),
    ensures
        summarises(summary, slots@, rules@, current_at as int),
{
    let count: usize = count_until(slots, current_at);
    if count == 0 {
        return None;
    }
    proof {
        assert(crate::schedule::slot_in_order(rules@, slots@[count - 1]));
    }
    let current: usize = winning_timed_event(&slots[count - 1]);
    proof {
        assert(slots@[count - 1].rules@[slots@[count - 1].rules@.len() - 1] == current);
    }
    let on = rules[current].turn_on;
    let mut index: usize = count;
    let mut next: Option<String> = None;
    while index < slots.len() && next.is_none()
        invariant
            crate::schedule::slots_in_order(rules@, slots@),
            slots_in_range(slots@),
            count <= index <= slots@.len(),
            match next {
                None => next_change(slots@, rules@, on, count as int) == next_change(
                    slots@,
                    rules@,
                    on,
                    index as int,
                ),
                Some(text) => next_change(slots@, rules@, on, count as int) is Some && text@
                    == change_text(
                    slots@,
                    rules@,
                    current_at as int,
                    next_change(slots@, rules@, on, count as int)->0,
                ),
            },
        decreases slots@.len() - index,
    {
        proof {
            assert(crate::schedule::slot_in_order(rules@, slots@[index as int]));
        }
        let rule: usize = winning_timed_event(&slots[index]);
        proof {
            assert(slots@[index as int].rules@[slots@[index as int].rules@.len() - 1] == rule);
        }
        if rules[rule].turn_on != on {
            let at: i128 = slots[index].at;
            let day: i128 = quotient(at, 1_440);
            let today: i128 = quotient(current_at, 1_440);
            let mut text = "Next: ".to_owned();
            text.append(state_text(rules[rule].turn_on));
            text.append(" ");
            if day == today {
                text.append("today");
            } else if day == today + 1 {
                text.append("tomorrow");
            } else {
                text.append(calendar_day_name(day));
            }
            text.append(" at ");
            text.append(calendar_absolute_time(at).as_str());
            text.append(" · ");
            text.append(rules[rule].name.as_str());
            next = Some(text);
        }
        index = index + 1;
    }
    Some(CalendarSummaryView { state: state_text(on), next })
}

/// The names of the rules among the first `count` of a slot that have another identity than
/// the winner.
pub open spec fn loser_names(
    rules: Seq<AutomationRule>,
    listed: Seq<usize>,
    id: u64,
    count: int,
) -> Seq<Seq<char>>
    decreases count,
{
    if count <= 0 {
        seq![]
    } else {
        let front = loser_names(rules, listed, id, count - 1);
        let rule = rules[listed[count - 1] as int];
        if rule.id != id {
            front.push(rule.name@)
        } else {
            front
        }
    }
}

/// A conflict in words.
pub open spec fn conflict_text(rules: Seq<AutomationRule>, slot: TimedSlot) -> Seq<char> {
    let winner = rules[crate::schedule::winner(slot)];
    day_name(slot.at as int / 1_440) + " at "@ + moment_clock(slot.at as int) + ": "@ + winner.name@
        + " wins over "@ + crate::text::joined(
        loser_names(rules, slot.rules@, winner.id, slot.rules@.len() as int),
        ", "@,
    ) + " because it was added most recently."@
}

/// The conflicts of the first `count` slots that lie in a week.
pub open spec fn conflict_texts(
    rules: Seq<AutomationRule>,
    slots: Seq<TimedSlot>,
    week_start: int,
    week_end: int,
    count: int,
) -> Seq<Seq<char>>
    decreases count,
{
    if count <= 0 {
        seq![]
    } else {
        let front = conflict_texts(rules, slots, week_start, week_end, count - 1);
        let slot = slots[count - 1];
        if week_start <= slot.at < week_end && slot.rules@.len() >= 2 {
            front.push(conflict_text(rules, slot))
        } else {
            front
        }
    }
}

/// What conflict views say.
pub open spec fn conflict_details(conflicts: Seq<CalendarConflictView>) -> Seq<Seq<char>> {
    conflicts.map_values(|conflict: CalendarConflictView| conflict.detail@)
}

fn conflict_detail(rules: &Vec<AutomationRule>, slot: &TimedSlot) -> (text: String)
    requires
        crate::schedule::slot_in_order(rules@, *slot),
        crate::clock::day_in_range(slot.at as int / 1_440),
    ensures
        text@ == conflict_text(rules@, *slot),
{
    let won: usize = winning_timed_event(slot);
    proof {
        assert(slot.rules@[slot.rules@.len() - 1] == won);
    }
    let winner = &rules[won];
    let mut losers: Vec<String> = Vec::new();
    let mut index: usize = 0;
    proof {
        assert(crate::text::texts(losers@) =~= seq![]);
    }
    while index < slot.rules.len()
        invariant
            index <= slot.rules@.len(),
            crate::schedule::slot_in_order(rules@, *slot),
            crate::text::texts(losers@) == loser_names(
                rules@,
                slot.rules@,
                winner.id,
                index as int,
            ),
        decreases slot.rules@.len() - index,
    {
        proof {
            assert(slot.rules@[index as int] < rules@.len());
        }
        let rule = &rules[slot.rules[index]];
        if rule.id != winner.id {
            let ghost before = losers@;
            losers.push(rule.name.clone());
            proof {
                assert(crate::text::texts(losers@) =~= crate::text::texts(before).push(rule.name@));
            }
        }
        index = index + 1;
    }
    let mut text = calendar_day_name(quotient(slot.at, 1_440)).to_owned();
    text.append(" at ");
    text.append(calendar_absolute_time(slot.at).as_str());
    text.append(": ");
    text.append(winner.name.as_str());
    text.append(" wins over ");
    text.append(join(&losers, ", ").as_str());
    text.append(" because it was added most recently.");
    text
}

/// The conflicts of the week that begins on a Monday: the moments at which two or more enabled
/// timed rules act, with the one that wins.
pub fn calendar_conflicts(
    monday: i128,
    slots: &Vec<TimedSlot>,
    rules: &Vec<AutomationRule>,
) -> (conflicts: Vec<CalendarConflictView>)
    requires
        crate::schedule::monday_in_range(monday as int),
        crate::schedule::slots_in_order(rules@, slots@),
        slots_in_range(slots@),
    ensures
        conflict_details(conflicts@) == conflict_texts(
            rules@,
            slots@,
            monday * 1_440,
            (monday + 7) * 1_440,
            slots@.len() as int,
        ),
{
    let week_start: i128 = monday * 1_440;
    let week_end: i128 = (monday + 7) * 1_440;
    let mut conflicts: Vec<CalendarConflictView> = Vec::new();
    let mut index: usize = 0;
    proof {
        assert(conflict_details(conflicts@) =~= seq![]);
    }
    while index < slots.len()
        invariant
            index <= slots@.len(),
            crate::schedule::slots_in_order(rules@, slots@),
            slots_in_range(slots@),
            conflict_details(conflicts@) == conflict_texts(
                rules@,
                slots@,
                week_start as int,
                week_end as int,
                index as int,
            ),
        decreases slots@.len() - index,
    {
        let slot = &slots[index];
        proof {
            assert(crate::schedule::slot_in_order(rules@, slots@[index as int]));
        }
        if slot.at >= week_start && slot.at < week_end && slot.rules.len() >= 2 {
            let ghost before = conflicts@;
            let conflict = CalendarConflictView { detail: conflict_detail(rules, slot) };
            conflicts.push(conflict);
            proof {
                assert(conflict_details(conflicts@) =~= conflict_details(before).push(
                    conflict.detail@,
                ));
            }
        }
        index = index + 1;
    }
    conflicts
}

/// The Monday of the week of a day.
pub open spec fn monday_of(day: int) -> int {
    day - (crate::clock::weekday(day) + 6) % 7
}

/// Whether a view shows the week that slots and spans are of.
pub open spec fn shows_week(
    view: WeekCalendarView,
    rules: Seq<AutomationRule>,
    thresholds: Seq<Thresholds>,
    weather: WeatherStatus,
    slots: Seq<TimedSlot>,
    spans: Seq<Span>,
) -> bool {
    let monday = monday_of(weather.current_day as int);
    let week_start = monday * 1_440;
    let week_end = (monday + 7) * 1_440;
    &&& crate::schedule::holds_events(slots, rules, weather.solar_days@, monday)
    &&& crate::spans::are_spans(spans, slots, rules, week_start, week_end)
    &&& view.timezone@ == weather.timezone@
    &&& view.week_label@ == crate::date::week_label(monday)
    &&& view.current_left == percent(weather.current_minute as int)
    &&& summarises(
        view.summary,
        slots,
        rules,
        weather.current_day * 1_440 + weather.current_minute,
    )
    &&& view.has_entries == exists|i: int|
        0 <= i < 7 && (#[trigger] view.days@[i]).entries@.len() > 0
    &&& conflict_details(view.conflicts@) == conflict_texts(
        rules,
        slots,
        week_start,
        week_end,
        slots.len() as int,
    )
    &&& view.days@.len() == 7
    &&& forall|i: int|
        0 <= i < 7 ==> shows_day(
            #[trigger] view.days@[i],
            rules,
            thresholds,
            slots,
            spans,
            weather.solar_days@,
            monday,
            weather.current_day as int,
            i,
        )
}

/// The summary of a week agrees with its chart: where a timed event is known by the current
/// moment, the moment lies in a span, and the summary names the state of that span. Where none
/// is, there is no summary, and no span holds the moment.
pub proof fn law_summary_agrees_with_chart(
    view: WeekCalendarView,
    rules: Seq<AutomationRule>,
    thresholds: Seq<Thresholds>,
    weather: WeatherStatus,
    slots: Seq<TimedSlot>,
    spans: Seq<Span>,
)
    requires
        shows_week(view, rules, thresholds, weather, slots, spans),
        weather.current_minute < 1_440,
    ensures
        ({
            let now = weather.current_day * 1_440 + weather.current_minute;
            if slots.len() > 0 && slots[0].at <= now {
                view.summary is Some && exists|i: int|
                    0 <= i < spans.len() && (#[trigger] spans[i]).start <= now < spans[i].end
                        && view.summary->0.state@ == state_name(
                        rules[spans[i].rule as int].turn_on,
                    )
            } else {
                view.summary is None && forall|i: int|
                    0 <= i < spans.len() ==> !((#[trigger] spans[i]).start <= now < spans[i].end)
            }
        }),
{
    let monday = monday_of(weather.current_day as int);
    let now = weather.current_day * 1_440 + weather.current_minute;
    crate::spans::lemma_slots_until(slots, now);
    if slots.len() > 0 && slots[0].at <= now {
        crate::spans::law_spans_cover_the_week(
            spans,
            slots,
            rules,
            monday * 1_440,
            (monday + 7) * 1_440,
            now,
        );
    } else {
        assert(crate::spans::ruling(slots, now) is None);
        assert forall|i: int| 0 <= i < spans.len() implies !((#[trigger] spans[i]).start <= now
            < spans[i].end) by {
            assert(crate::spans::lasts(spans[i], slots, rules));
        }
    }
}

/// An event of a rule on a day is among the points of the day.
pub proof fn lemma_point_shown(
    rules: Seq<AutomationRule>,
    slots: Seq<TimedSlot>,
    day: int,
    solar: Option<SolarForecastDay>,
    rule: int,
    count: int,
) -> (index: int)
    requires
        0 <= rule < count <= rules.len(),
        crate::schedule::timed_minute(rules[rule], day, solar) is Some,
    ensures
        0 <= index < point_entries(rules, slots, day, solar, count).len(),
        point_entries(rules, slots, day, solar, count)[index] == point_entry(
            rules,
            slots,
            rule,
            day,
            crate::schedule::timed_minute(rules[rule], day, solar)->0,
        ),
    decreases count,
{
    let front = point_entries(rules, slots, day, solar, count - 1);
    if rule == count - 1 {
        front.len() as int
    } else {
        let index = lemma_point_shown(rules, slots, day, solar, rule, count - 1);
        assert(point_entries(rules, slots, day, solar, count)[index] == front[index]);
        index
    }
}

/// Whether an entry shows an event of a rule as disabled: it takes part in no conflict, and its
/// class says so.
pub open spec fn marks_disabled(entry: Entry, rule: AutomationRule) -> bool {
    &&& entry.rule_id == rule.id
    &&& entry.point
    &&& !entry.enabled
    &&& !entry.conflict
    &&& !entry.winner
    &&& entry.class == entry_class(
        timed_kind(rule),
        if rule.turn_on {
            "turn-on"@
        } else {
            "turn-off"@
        },
        false,
    )
}

/// A disabled timed rule is still shown on each day on which it would act, marked as disabled.
pub proof fn law_disabled_rules_are_marked(
    view: WeekCalendarView,
    rules: Seq<AutomationRule>,
    thresholds: Seq<Thresholds>,
    weather: WeatherStatus,
    slots: Seq<TimedSlot>,
    spans: Seq<Span>,
    rule: int,
    index: int,
)
    requires
        shows_week(view, rules, thresholds, weather, slots, spans),
        0 <= rule < rules.len(),
        !rules[rule].enabled,
        0 <= index < 7,
        crate::schedule::event_at(
            rules[rule],
            weather.solar_days@,
            monday_of(weather.current_day as int) + index,
        ) is Some,
    ensures
        exists|i: int|
            0 <= i < view.days@[index].entries@.len() && marks_disabled(
                #[trigger] view.days@[index].entries@[i]@,
                rules[rule],
            ),
{
    let monday = monday_of(weather.current_day as int);
    let day = monday + index;
    let solar = crate::schedule::solar_for(weather.solar_days@, day);
    let entries = view.days@[index].entries@;
    assert(shows_day(
        view.days@[index],
        rules,
        thresholds,
        slots,
        spans,
        weather.solar_days@,
        monday,
        weather.current_day as int,
        index,
    ));
    let place = lemma_point_shown(rules, slots, day, solar, rule, rules.len() as int);
    let states = span_entries(
        rules,
        spans,
        monday * 1_440,
        (monday + 7) * 1_440,
        day,
        spans.len() as int,
    );
    let i = states.len() + place;
    assert(shown(entries)[i] == point_entries(rules, slots, day, solar, rules.len() as int)[place]);
    assert(shown(entries).len() == entries.len());
    assert(shown(entries)[i] == entries[i]@);
}

proof fn lemma_slots_in_range(
    slots: Seq<TimedSlot>,
    rules: Seq<AutomationRule>,
    forecast: Seq<SolarForecastDay>,
    monday: int,
)
    requires
        crate::schedule::holds_events(slots, rules, forecast, monday),
        crate::schedule::monday_in_range(monday),
    ensures
        slots_in_range(slots),
{
    assert forall|k: int| 0 <= k < slots.len() implies crate::clock::day_in_range(
        (#[trigger] slots[k]).at as int / 1_440,
    ) by {
        let at = slots[k].at as int;
        assert(crate::schedule::slot_in_order(rules, slots[k]));
        let rule = slots[k].rules@[0] as int;
        assert(crate::schedule::lists(slots[k], rule));
        assert(crate::schedule::scheduled(slots, rule, at));
        assert(crate::schedule::fires(rules, forecast, monday, rule, at));
        let day = choose|day: int|
            crate::schedule::in_horizon(monday, day) && #[trigger] crate::schedule::event_at(
                rules[rule],
                forecast,
                day,
            ) == Some(at);
        let minute = at - day * 1_440;
        assert(0 <= minute <= 65_535);
        assert(at / 1_440 == day + minute / 1_440);
    }
}

/// The calendar of the week of a moment. The thresholds of each rule stand at its place.
pub fn week_calendar_view(
    rules: &Vec<AutomationRule>,
    thresholds: &Vec<Thresholds>,
    weather: &WeatherStatus,
) -> (view: WeekCalendarView)
    requires
        thresholds@.len() == rules@.len(),
        rules@.len() < usize::MAX,
        week_fits(rules@, weather.solar_days@, monday_of(weather.current_day as int)),
    ensures
        exists|slots: Seq<TimedSlot>, spans: Seq<Span>| #[trigger]
            shows_week(view, rules@, thresholds@, *weather, slots, spans),
{
    let weekday: usize = weekday_index(weather.current_day as i128);
    let monday: i128 = weather.current_day as i128 - ((weekday + 6) % 7) as i128;
    let slots = enabled_timed_events(rules, monday, &weather.solar_days);
    proof {
        lemma_slots_in_range(slots@, rules@, weather.solar_days@, monday as int);
    }
    let spans = scheduled_spans(&slots, rules, monday * 1_440, (monday + 7) * 1_440);
    let mut days: Vec<CalendarDayView> = Vec::new();
    let mut has_entries = false;
    let mut index: usize = 0;
    while index < 7
        invariant
            index <= 7,
            days@.len() == index,
            thresholds@.len() == rules@.len(),
            rules@.len() < usize::MAX,
            week_fits(rules@, weather.solar_days@, monday as int),
            crate::schedule::monday_in_range(monday as int),
            crate::schedule::slots_in_order(rules@, slots@),
            crate::spans::are_spans(
                spans@,
                slots@,
                rules@,
                monday * 1_440,
                (monday + 7) * 1_440,
            ),
            has_entries == exists|i: int|
                0 <= i < index && (#[trigger] days@[i]).entries@.len() > 0,
            forall|i: int|
                0 <= i < index ==> shows_day(
                    #[trigger] days@[i],
                    rules@,
                    thresholds@,
                    slots@,
                    spans@,
                    weather.solar_days@,
                    monday as int,
                    weather.current_day as int,
                    i,
                ),
        decreases 7 - index,
    {
        let ghost before = days@;
        proof {
            let solar = crate::schedule::solar_for(weather.solar_days@, monday + index);
            assert(windows_fit(rules@, solar));
        }
        let day = calendar_day(
            rules,
            thresholds,
            &slots,
            &spans,
            &weather.solar_days,
            monday,
            weather.current_day,
            index,
        );
        let some = day.entries.len() > 0;
        days.push(day);
        proof {
            assert forall|i: int| 0 <= i < index implies #[trigger] days@[i] == before[i] by {}
            if has_entries {
                let i = choose|i: int| 0 <= i < index && (#[trigger] before[i]).entries@.len() > 0;
                assert(days@[i].entries@.len() > 0);
            }
            if some {
                assert(days@[index as int].entries@.len() > 0);
            }
        }
        has_entries = has_entries || some;
        index = index + 1;
    }
    let current_at: i128 = weather.current_day as i128 * 1_440 + weather.current_minute as i128;
    let view = WeekCalendarView {
        timezone: weather.timezone.clone(),
        week_label: calendar_week_label(monday),
        current_left: calendar_percent(weather.current_minute),
        summary: calendar_summary(current_at, &slots, rules),
        has_entries,
        conflicts: calendar_conflicts(monday, &slots, rules),
        days,
    };
    proof {
        assert(monday == monday_of(weather.current_day as int));
        assert(view.days@ == days@);
        assert(view.has_entries == exists|i: int|
            0 <= i < 7 && (#[trigger] view.days@[i]).entries@.len() > 0);
        assert(shows_week(view, rules@, thresholds@, *weather, slots@, spans@));
    }
    view
}

/// A window that is the whole day says so. Any other says from when to when it is, midnight by the
/// clock, and each says the light at which its rule turns the plug on and off.
pub proof fn law_windows_describe_themselves(
    rule: AutomationRule,
    thresholds: Thresholds,
    start: int,
    end: int,
    lane: int,
)
    requires
        0 <= start < end <= 1_440,
    ensures
        ({
            let entry = window_entry(rule, thresholds, start, end, lane);
            &&& entry.rule_id == rule.id
            &&& entry.name == rule.name@
            &&& entry.enabled == rule.enabled
            &&& entry.lane == lane
            &&& !entry.point && !entry.conflict && !entry.winner
            &&& entry.label == "AUTO · ≤ "@ + thresholds.on_below@ + " W/m²"@
            &&& start == 0 && end == 1_440 ==> entry.detail == "Active all day"@
                + " · turns off at ≥ "@ + thresholds.off_above@ + " W/m²"@
            &&& start > 0 && end == 1_440 ==> entry.detail == "Active "@
                + crate::clock::minute_clock(start as nat) + "–"@ + "12:00 AM"@
                + " · turns off at ≥ "@ + thresholds.off_above@ + " W/m²"@
            &&& end < 1_440 ==> entry.detail == "Active "@ + crate::clock::minute_clock(
                start as nat,
            ) + "–"@ + crate::clock::minute_clock(end as nat) + " · turns off at ≥ "@
                + thresholds.off_above@ + " W/m²"@
        }),
{
}

/// The class of an entry names what it shows and does, and is marked exactly where its rule is
/// disabled.
pub proof fn law_classes_mark_disabled_rules(kind: Seq<char>, action: Seq<char>)
    ensures
        entry_class(kind, action, true) == "calendar-entry "@ + kind + " "@ + action,
        entry_class(kind, action, false) == entry_class(kind, action, true)
            + " calendar-disabled"@,
{
}

/// The label of an event shows the hour of the dial and the minute, with an arrow up for sunrise
/// and one down for sunset. What would be no hour is shown as the first.
pub proof fn law_events_are_labelled(rule: AutomationRule, hour: nat, minute: nat)
    requires
        hour < 24,
        minute < 60,
    ensures
        ({
            let dial = if hour == 0 || hour == 12 {
                1
            } else if hour > 12 {
                (hour - 12) as nat
            } else {
                hour
            };
            let time = crate::text::decimal(dial) + ":"@ + crate::text::two_digits(minute);
            let label = boundary_label(rule, (60 * hour + minute) as int);
            match rule.trigger {
                AutomationTrigger::Solar { event: SolarEvent::Sunrise, .. } => label == time
                    + " ↑"@,
                AutomationTrigger::Solar { event: SolarEvent::Sunset, .. } => label == time
                    + " ↓"@,
                _ => label == time,
            }
        }),
{
    assert((60 * hour + minute) / 60 == hour && (60 * hour + minute) % 60 == minute);
}

/// A span says the state that its rule set, from when to when, and by which rule; one that lasts
/// all week says that it was carried over.
pub proof fn law_spans_describe_themselves(
    rule: AutomationRule,
    span: Span,
    week_start: int,
    week_end: int,
    day: int,
)
    requires
        week_start <= span.start < span.end <= week_end,
        span_entry(rule, span, week_start, week_end, day) is Some,
    ensures
        ({
            let entry = span_entry(rule, span, week_start, week_end, day)->0;
            let state = if rule.turn_on {
                "on"@
            } else {
                "off"@
            };
            &&& entry.rule_id == rule.id
            &&& entry.name == rule.name@
            &&& entry.label == (if rule.turn_on {
                "ON"@
            } else {
                "OFF"@
            })
            &&& entry.class == (if rule.turn_on {
                "calendar-entry scheduled-on"@
            } else {
                "calendar-entry scheduled-off"@
            })
            &&& span.start == week_start && span.end == week_end ==> entry.detail == "Scheduled "@
                + state + " all week · carried over from "@ + rule.name@
            &&& span.start > week_start || span.end < week_end ==> entry.detail == "Scheduled "@
                + state + " "@ + crate::clock::minute_clock((span.start as int % 1_440) as nat)
                + "–"@ + crate::clock::minute_clock((span.end as int % 1_440) as nat)
                + " · set by "@ + rule.name@
        }),
{
}

} // verus!
