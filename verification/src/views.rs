//! Automation rules as a page shows them and offers them for change.
use crate::automation::{
    AutomationRule, AutomationTrigger, OutsideWindowBehavior, SolarEvent, TimeBoundary,
};
use crate::calendar::Thresholds;
use crate::clock::format_minute;
use crate::quantity::Quantity;
use crate::rules::{solar_schedule_time, weekday_summary};
use crate::text::{trim, two_digit_text};
use vstd::prelude::*;
use vstd::string::*;

verus! {

/// A rule as a page shows it and offers it for change.
#[derive(Debug)]
pub struct AutomationView {
    pub id: u64,
    pub title: &'static str,
    pub kind: &'static str,
    pub name: String,
    pub enabled: bool,
    pub description: String,
    pub time: String,
    pub event: &'static str,
    pub offset_minutes: i16,
    pub turn_on: bool,
    pub weekdays: [bool; 7],
    pub on_below: Quantity,
    pub off_above: Quantity,
    pub window_enabled: bool,
    pub start_kind: &'static str,
    pub start_time: String,
    pub start_offset_minutes: i16,
    pub end_kind: &'static str,
    pub end_time: String,
    pub end_offset_minutes: i16,
    pub outside_turn_off: bool,
}

/// A minute of the day in twenty-four hours.
pub open spec fn wall_clock(minute: int) -> Seq<char> {
    crate::text::two_digits((minute / 60) as nat) + ":"@ + crate::text::two_digits(
        (minute % 60) as nat,
    )
}

fn wall_clock_text(minute: u16) -> (text: String)
    ensures
        text@ == wall_clock(minute as int),
{
    let mut text = two_digit_text((minute / 60) as u64);
    text.append(":");
    text.append(two_digit_text((minute % 60) as u64).as_str());
    text
}

/// What the sun does, in a word.
pub open spec fn event_name(event: SolarEvent) -> Seq<char> {
    match event {
        SolarEvent::Sunrise => "sunrise"@,
        SolarEvent::Sunset => "sunset"@,
    }
}

fn event_text(event: SolarEvent) -> (text: &'static str)
    ensures
        text@ == event_name(event),
{
    match event {
        SolarEvent::Sunrise => "sunrise",
        SolarEvent::Sunset => "sunset",
    }
}

/// The name of a rule; a rule without one is called by its kind.
pub open spec fn shown_name(rule: AutomationRule) -> Seq<char> {
    if crate::text::trimmed(rule.name@).len() == 0 {
        match rule.trigger {
            AutomationTrigger::FixedTime { .. } => "Fixed-time schedule"@,
            AutomationTrigger::Solar { .. } => "Solar schedule"@,
            AutomationTrigger::LightLevel { .. } => "Outdoor light"@,
        }
    } else {
        rule.name@
    }
}

/// The edge of a window in words.
pub open spec fn edge_text(edge: TimeBoundary) -> Seq<char> {
    match edge {
        TimeBoundary::Fixed { minute_of_day } => crate::clock::minute_clock(minute_of_day as nat),
        TimeBoundary::Solar { event, offset_minutes } => crate::rules::solar_timing(
            event_name(event),
            offset_minutes as int,
        ),
    }
}

/// Spells the edge of a window.
pub fn time_boundary_description(edge: TimeBoundary) -> (text: String)
    ensures
        text@ == edge_text(edge),
{
    match edge {
        TimeBoundary::Fixed { minute_of_day } => format_minute(minute_of_day),
        TimeBoundary::Solar { event, offset_minutes } => solar_schedule_time(
            event_text(event),
            offset_minutes,
        ),
    }
}

/// The kind of an edge of a window, as a form offers it.
pub open spec fn edge_kind(edge: TimeBoundary) -> Seq<char> {
    match edge {
        TimeBoundary::Fixed { .. } => "fixed"@,
        TimeBoundary::Solar { event, .. } => event_name(event),
    }
}

/// The time of an edge of a window, as a form offers it. An edge by the sun has none of its
/// own.
pub open spec fn edge_time(edge: TimeBoundary, default_time: Seq<char>) -> Seq<char> {
    match edge {
        TimeBoundary::Fixed { minute_of_day } => wall_clock(minute_of_day as int),
        TimeBoundary::Solar { .. } => default_time,
    }
}

/// The offset of an edge of a window, as a form offers it.
pub open spec fn edge_offset(edge: TimeBoundary) -> i16 {
    match edge {
        TimeBoundary::Fixed { .. } => 0,
        TimeBoundary::Solar { offset_minutes, .. } => offset_minutes,
    }
}

/// What a form offers for an edge of a window: its kind, its time and its offset.
pub fn time_boundary_form_values(edge: TimeBoundary, default_time: &str) -> (result: (
    &'static str,
    String,
    i16,
))
    ensures
        result.0@ == edge_kind(edge),
        result.1@ == edge_time(edge, default_time@),
        result.2 == edge_offset(edge),
{
    match edge {
        TimeBoundary::Fixed { minute_of_day } => ("fixed", wall_clock_text(minute_of_day), 0),
        TimeBoundary::Solar { event, offset_minutes } => (
            event_text(event),
            default_time.to_owned(),
            offset_minutes,
        ),
    }
}

/// A form that offers an edge of a window for change reads the same edge back, where it is
/// one that a form makes.
pub proof fn law_form_values_read_back(edge: TimeBoundary, default_time: Seq<char>)
    requires
        crate::forms::edge_within_day(edge),
    ensures
        crate::forms::boundary(
            edge_kind(edge),
            edge_time(edge, default_time),
            edge_offset(edge),
        ) == Ok::<TimeBoundary, Seq<char>>(edge),
{
    reveal_strlit("fixed");
    reveal_strlit("sunrise");
    reveal_strlit("sunset");
    reveal_strlit(":");
    reveal_strlit("0");
    assert("fixed"@.len() != "sunrise"@.len());
    assert("fixed"@.len() != "sunset"@.len());
    assert("sunrise"@.len() != "sunset"@.len());
    match edge {
        TimeBoundary::Fixed { minute_of_day } => {
            lemma_two_digits((minute_of_day / 60) as nat);
            lemma_two_digits((minute_of_day % 60) as nat);
            let text = wall_clock(minute_of_day as int);
            let hours = crate::text::two_digits((minute_of_day / 60) as nat);
            let minutes = crate::text::two_digits((minute_of_day % 60) as nat);
            assert(text[0] == hours[0] && text[1] == hours[1] && text[2] == ':' && text[3]
                == minutes[0] && text[4] == minutes[1]);
        },
        TimeBoundary::Solar { .. } => {},
    }
}

proof fn lemma_two_digits(value: nat)
    requires
        value < 100,
    ensures
        crate::text::two_digits(value).len() == 2,
        crate::text::is_digit(crate::text::two_digits(value)[0]),
        crate::text::is_digit(crate::text::two_digits(value)[1]),
        crate::text::digit_value(crate::text::two_digits(value)[0]) * 10
            + crate::text::digit_value(crate::text::two_digits(value)[1]) == value,
{
    reveal_strlit("0");
    reveal_with_fuel(crate::text::decimal, 3);
}

/// What a rule at a fixed time says of itself.
pub open spec fn fixed_text(turn_on: bool, minute: int, weekdays: [bool; 7]) -> Seq<char> {
    crate::clock::minute_clock(minute as nat) + " · Turn "@ + on_or_off(turn_on) + " · "@
        + crate::rules::weekdays_text(weekdays)
}

/// A state in small letters.
pub open spec fn on_or_off(turn_on: bool) -> Seq<char> {
    if turn_on {
        "on"@
    } else {
        "off"@
    }
}

fn on_or_off_text(turn_on: bool) -> (text: &'static str)
    ensures
        text@ == on_or_off(turn_on),
{
    if turn_on {
        "on"
    } else {
        "off"
    }
}

/// When a rule by the sun acts, in words.
pub open spec fn sun_timing(event: SolarEvent, offset_minutes: int) -> Seq<char> {
    if offset_minutes == 0 {
        "at "@ + event_name(event)
    } else {
        crate::rules::solar_timing(event_name(event), offset_minutes)
    }
}

/// What a rule by the sun says of itself.
pub open spec fn solar_text(
    turn_on: bool,
    event: SolarEvent,
    offset_minutes: int,
    weekdays: [bool; 7],
) -> Seq<char> {
    "Turn "@ + on_or_off(turn_on) + " "@ + sun_timing(event, offset_minutes) + " · "@
        + crate::rules::weekdays_text(weekdays)
}

/// What a rule by light says of its thresholds.
pub open spec fn threshold_text(thresholds: Thresholds) -> Seq<char> {
    "On ≤ "@ + thresholds.on_below@ + " W/m² · Off ≥ "@ + thresholds.off_above@ + " W/m²"@
}

/// What a rule says of itself.
pub open spec fn description(rule: AutomationRule, thresholds: Thresholds) -> Seq<char> {
    match rule.trigger {
        AutomationTrigger::FixedTime { minute_of_day, weekdays } => fixed_text(
            rule.turn_on,
            minute_of_day as int,
            weekdays,
        ),
        AutomationTrigger::Solar { event, offset_minutes, weekdays } => solar_text(
            rule.turn_on,
            event,
            offset_minutes as int,
            weekdays,
        ),
        AutomationTrigger::LightLevel { active_window, .. } => match active_window {
            Some(window) => {
                let text = edge_text(window.start) + "–"@ + edge_text(window.end) + " · "@
                    + threshold_text(thresholds);
                if window.outside == OutsideWindowBehavior::TurnOff {
                    text + " · Off outside window"@
                } else {
                    text
                }
            },
            None => threshold_text(thresholds) + " · All day"@,
        },
    }
}

/// No day of a week.
pub open spec fn no_days(weekdays: [bool; 7]) -> bool {
    forall|i: int| 0 <= i < 7 ==> !#[trigger] weekdays[i]
}

/// Whether a view holds what every view of a rule holds.
pub open spec fn shows_common(
    view: AutomationView,
    rule: AutomationRule,
    thresholds: Thresholds,
) -> bool {
    &&& view.id == rule.id
    &&& view.name@ == shown_name(rule)
    &&& view.enabled == rule.enabled
    &&& view.turn_on == rule.turn_on
    &&& view.description@ == description(rule, thresholds)
}

/// Whether a view offers no window: it has what a new window begins with.
pub open spec fn shows_no_window(view: AutomationView) -> bool {
    &&& !view.window_enabled
    &&& view.start_kind@ == "fixed"@
    &&& view.start_time@ == "09:00"@
    &&& view.start_offset_minutes == 0
    &&& view.end_kind@ == "fixed"@
    &&& view.end_time@ == "17:00"@
    &&& view.end_offset_minutes == 0
    &&& view.outside_turn_off
}

/// Whether a view shows a rule.
pub open spec fn shows_rule(
    view: AutomationView,
    rule: AutomationRule,
    thresholds: Thresholds,
) -> bool {
    &&& shows_common(view, rule, thresholds)
    &&& match rule.trigger {
        AutomationTrigger::FixedTime { minute_of_day, weekdays } => {
            &&& view.title@ == "Fixed time"@
            &&& view.kind@ == "fixed"@
            &&& view.time@ == wall_clock(minute_of_day as int)
            &&& view.event@ == ""@
            &&& view.offset_minutes == 0
            &&& view.weekdays == weekdays
            &&& view.on_below.bits == 0
            &&& view.off_above.bits == 0
            &&& shows_no_window(view)
        },
        AutomationTrigger::Solar { event, offset_minutes, weekdays } => {
            &&& view.title@ == (match event {
                SolarEvent::Sunrise => "Sunrise"@,
                SolarEvent::Sunset => "Sunset"@,
            })
            &&& view.kind@ == "solar"@
            &&& view.time@.len() == 0
            &&& view.event@ == event_name(event)
            &&& view.offset_minutes == offset_minutes
            &&& view.weekdays == weekdays
            &&& view.on_below.bits == 0
            &&& view.off_above.bits == 0
            &&& shows_no_window(view)
        },
        AutomationTrigger::LightLevel { on_below, off_above, active_window } => {
            &&& view.title@ == "Outdoor light"@
            &&& view.kind@ == "light"@
            &&& view.time@.len() == 0
            &&& view.event@ == ""@
            &&& view.offset_minutes == 0
            &&& no_days(view.weekdays)
            &&& view.on_below == on_below
            &&& view.off_above == off_above
            &&& match active_window {
                None => shows_no_window(view),
                Some(window) => {
                    &&& view.window_enabled
                    &&& view.start_kind@ == edge_kind(window.start)
                    &&& view.start_time@ == edge_time(window.start, "09:00"@)
                    &&& view.start_offset_minutes == edge_offset(window.start)
                    &&& view.end_kind@ == edge_kind(window.end)
                    &&& view.end_time@ == edge_time(window.end, "17:00"@)
                    &&& view.end_offset_minutes == edge_offset(window.end)
                    &&& view.outside_turn_off == (window.outside
                        == OutsideWindowBehavior::TurnOff)
                },
            }
        },
    }
}

fn append_thresholds(text: &mut String, thresholds: &Thresholds)
    ensures
        final(text)@ == old(text)@ + threshold_text(*thresholds),
{
    let ghost before = text@;
    let mut limits = "On ≤ ".to_owned();
    limits.append(thresholds.on_below.as_str());
    limits.append(" W/m² · Off ≥ ");
    limits.append(thresholds.off_above.as_str());
    limits.append(" W/m²");
    text.append(limits.as_str());
}

fn rule_description(rule: &AutomationRule, thresholds: &Thresholds) -> (text: String)
    ensures
        text@ == description(*rule, *thresholds),
{
    match rule.trigger {
        AutomationTrigger::FixedTime { minute_of_day, weekdays } => {
            let mut text = format_minute(minute_of_day);
            text.append(" · Turn ");
            text.append(on_or_off_text(rule.turn_on));
            text.append(" · ");
            text.append(weekday_summary(weekdays).as_str());
            text
        },
        AutomationTrigger::Solar { event, offset_minutes, weekdays } => {
            let mut text = "Turn ".to_owned();
            text.append(on_or_off_text(rule.turn_on));
            text.append(" ");
            if offset_minutes == 0 {
                let mut timing = "at ".to_owned();
                timing.append(event_text(event));
                text.append(timing.as_str());
            } else {
                text.append(solar_schedule_time(event_text(event), offset_minutes).as_str());
            }
            text.append(" · ");
            text.append(weekday_summary(weekdays).as_str());
            text
        },
        AutomationTrigger::LightLevel { active_window, .. } => match active_window {
            Some(window) => {
                let mut text = time_boundary_description(window.start);
                text.append("–");
                text.append(time_boundary_description(window.end).as_str());
                text.append(" · ");
                append_thresholds(&mut text, thresholds);
                if window.outside == OutsideWindowBehavior::TurnOff {
                    text.append(" · Off outside window");
                }
                text
            },
            None => {
                let mut text = String::new();
                append_thresholds(&mut text, thresholds);
                proof {
                    assert(text@ =~= threshold_text(*thresholds));
                }
                text.append(" · All day");
                text
            },
        },
    }
}

fn rule_name(rule: &AutomationRule) -> (name: String)
    ensures
        name@ == shown_name(*rule),
{
    if trim(rule.name.as_str()).unicode_len() == 0 {
        match rule.trigger {
            AutomationTrigger::FixedTime { .. } => "Fixed-time schedule".to_owned(),
            AutomationTrigger::Solar { .. } => "Solar schedule".to_owned(),
            AutomationTrigger::LightLevel { .. } => "Outdoor light".to_owned(),
        }
    } else {
        rule.name.clone()
    }
}

/// A rule as a page shows it and offers it for change.
pub fn automation_view(rule: &AutomationRule, thresholds: &Thresholds) -> (view: AutomationView)
    ensures
        shows_rule(view, *rule, *thresholds),
{
    let mut view = AutomationView {
        id: rule.id,
        title: "",
        kind: "",
        name: rule_name(rule),
        enabled: rule.enabled,
        description: rule_description(rule, thresholds),
        time: String::new(),
        event: "",
        offset_minutes: 0,
        turn_on: rule.turn_on,
        weekdays: [false, false, false, false, false, false, false],
        on_below: Quantity { bits: 0 },
        off_above: Quantity { bits: 0 },
        window_enabled: false,
        start_kind: "fixed",
        start_time: "09:00".to_owned(),
        start_offset_minutes: 0,
        end_kind: "fixed",
        end_time: "17:00".to_owned(),
        end_offset_minutes: 0,
        outside_turn_off: true,
    };
    match rule.trigger {
        AutomationTrigger::FixedTime { minute_of_day, weekdays } => {
            view.title = "Fixed time";
            view.kind = "fixed";
            view.time = wall_clock_text(minute_of_day);
            view.weekdays = weekdays;
        },
        AutomationTrigger::Solar { event, offset_minutes, weekdays } => {
            view.title = match event {
                SolarEvent::Sunrise => "Sunrise",
                SolarEvent::Sunset => "Sunset",
            };
            view.kind = "solar";
            view.event = event_text(event);
            view.offset_minutes = offset_minutes;
            view.weekdays = weekdays;
        },
        AutomationTrigger::LightLevel { on_below, off_above, active_window } => {
            view.title = "Outdoor light";
            view.kind = "light";
            view.on_below = on_below;
            view.off_above = off_above;
            if let Some(window) = active_window {
                view.window_enabled = true;
                let (start_kind, start_time, start_offset) = time_boundary_form_values(
                    window.start,
                    "09:00",
                );
                view.start_kind = start_kind;
                view.start_time = start_time;
                view.start_offset_minutes = start_offset;
                let (end_kind, end_time, end_offset) = time_boundary_form_values(
                    window.end,
                    "17:00",
                );
                view.end_kind = end_kind;
                view.end_time = end_time;
                view.end_offset_minutes = end_offset;
                view.outside_turn_off = window.outside == OutsideWindowBehavior::TurnOff;
            }
        },
    }
    view
}

/// A rule is called by its name, and one whose name is blank by its kind.
pub proof fn law_rules_have_names(rule: AutomationRule)
    ensures
        crate::text::trimmed(rule.name@).len() > 0 ==> shown_name(rule) == rule.name@,
        crate::text::trimmed(rule.name@).len() == 0 ==> {
            &&& rule.trigger is FixedTime ==> shown_name(rule) == "Fixed-time schedule"@
            &&& rule.trigger is Solar ==> shown_name(rule) == "Solar schedule"@
            &&& rule.trigger is LightLevel ==> shown_name(rule) == "Outdoor light"@
        },
{
}

/// A rule at a fixed time says when it acts, what it does and on which days. A rule by the sun says
/// what it does, when by the sunrise or the sunset, and on which days.
pub proof fn law_timed_rules_describe_themselves(
    rule: AutomationRule,
    thresholds: Thresholds,
    minutes: nat,
)
    requires
        minutes > 0,
    ensures
        ({
            let said = description(rule, thresholds);
            let state = if rule.turn_on {
                "on"@
            } else {
                "off"@
            };
            match rule.trigger {
                AutomationTrigger::FixedTime { minute_of_day, weekdays } => said
                    == crate::clock::minute_clock(minute_of_day as nat) + " · Turn "@ + state
                    + " · "@ + crate::rules::weekdays_text(weekdays),
                AutomationTrigger::Solar { event, offset_minutes, weekdays } => {
                    let sun = if event == SolarEvent::Sunrise {
                        "sunrise"@
                    } else {
                        "sunset"@
                    };
                    let days = crate::rules::weekdays_text(weekdays);
                    &&& offset_minutes == 0 ==> said == "Turn "@ + state + " "@ + ("at "@ + sun)
                        + " · "@ + days
                    &&& offset_minutes == minutes ==> said == "Turn "@ + state + " "@ + (
                    crate::text::decimal(minutes) + " min after "@ + sun) + " · "@ + days
                    &&& offset_minutes == -(minutes as int) ==> said == "Turn "@ + state + " "@ + (
                    crate::text::decimal(minutes) + " min before "@ + sun) + " · "@ + days
                },
                AutomationTrigger::LightLevel { .. } => true,
            }
        }),
{
}

/// A light rule says from when to when it controls the plug, or that it does all day, and at which
/// light it turns it on and off. That it turns the plug off outside its window is said exactly
/// where it does.
pub proof fn law_light_rules_describe_themselves(rule: AutomationRule, thresholds: Thresholds)
    requires
        rule.trigger is LightLevel,
    ensures
        ({
            let said = description(rule, thresholds);
            let limits = "On ≤ "@ + thresholds.on_below@ + " W/m² · Off ≥ "@
                + thresholds.off_above@ + " W/m²"@;
            match rule.trigger {
                AutomationTrigger::LightLevel { active_window: None, .. } => said == limits
                    + " · All day"@,
                AutomationTrigger::LightLevel { active_window: Some(window), .. } => {
                    let plain = edge_text(window.start) + "–"@ + edge_text(window.end) + " · "@
                        + limits;
                    &&& window.outside == OutsideWindowBehavior::StopControlling ==> said == plain
                    &&& window.outside == OutsideWindowBehavior::TurnOff ==> said == plain
                        + " · Off outside window"@
                },
                _ => false,
            }
        }),
{
}

/// The edge of a window is shown by the clock, or by the sunrise or the sunset with its offset.
pub proof fn law_edges_are_shown(minute: u16, offset_minutes: i16, default_time: Seq<char>)
    ensures
        ({
            let fixed = TimeBoundary::Fixed { minute_of_day: minute };
            let rise = TimeBoundary::Solar { event: SolarEvent::Sunrise, offset_minutes };
            let set = TimeBoundary::Solar { event: SolarEvent::Sunset, offset_minutes };
            &&& edge_text(fixed) == crate::clock::minute_clock(minute as nat)
            &&& edge_text(rise) == crate::rules::solar_timing("sunrise"@, offset_minutes as int)
            &&& edge_text(set) == crate::rules::solar_timing("sunset"@, offset_minutes as int)
            &&& edge_kind(fixed) == "fixed"@ && edge_offset(fixed) == 0
            &&& edge_kind(rise) == "sunrise"@ && edge_kind(set) == "sunset"@
            &&& edge_offset(rise) == offset_minutes && edge_offset(set) == offset_minutes
            &&& edge_time(rise, default_time) == default_time && edge_time(set, default_time)
                == default_time
        }),
{
}

/// A rule without a window offers one from nine in the morning to five in the afternoon, off
/// outside of it, which is not yet in force.
pub proof fn law_new_windows_are_office_hours(
    view: AutomationView,
    rule: AutomationRule,
    thresholds: Thresholds,
)
    requires
        shows_rule(view, rule, thresholds),
        rule.trigger matches AutomationTrigger::LightLevel { active_window, .. } ==> active_window
            is None,
    ensures
        !view.window_enabled,
        view.start_kind@ == "fixed"@ && view.end_kind@ == "fixed"@,
        view.start_time@ == seq!['0', '9', ':', '0', '0'],
        view.end_time@ == seq!['1', '7', ':', '0', '0'],
        view.start_offset_minutes == 0 && view.end_offset_minutes == 0,
        view.outside_turn_off,
{
    reveal_strlit("09:00");
    reveal_strlit("17:00");
    assert("09:00"@ =~= seq!['0', '9', ':', '0', '0']);
    assert("17:00"@ =~= seq!['1', '7', ':', '0', '0']);
}

/// A rule is shown under its kind, with its state, its identity and whether it is enabled.
pub proof fn law_rules_are_shown_by_kind(
    view: AutomationView,
    rule: AutomationRule,
    thresholds: Thresholds,
)
    requires
        shows_rule(view, rule, thresholds),
    ensures
        view.id == rule.id,
        view.enabled == rule.enabled,
        view.turn_on == rule.turn_on,
        rule.trigger is FixedTime ==> view.kind@ == "fixed"@ && view.title@ == "Fixed time"@,
        rule.trigger is LightLevel ==> view.kind@ == "light"@ && view.title@ == "Outdoor light"@,
        rule.trigger matches AutomationTrigger::Solar { event, .. } ==> view.kind@ == "solar"@ && (
        event == SolarEvent::Sunrise ==> view.title@ == "Sunrise"@) && (event == SolarEvent::Sunset
            ==> view.title@ == "Sunset"@),
{
}

} // verus!
