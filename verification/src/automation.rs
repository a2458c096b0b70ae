//! Automation rules, and what a rule asks for at a moment.
use crate::clock::{local_day, local_seconds, remainder, weekday_index};
use crate::plug::SmartPlug;
use crate::quantity::Quantity;
use crate::weather::WeatherSnapshot;
use vstd::prelude::*;

verus! {

/// How long after its moment a timed rule may still act.
pub const TRIGGER_WINDOW_SECONDS: i64 = 1_200;

/// What the sun does.
#[derive(Debug, Clone, Copy, PartialEq, Eq, Structural)]
pub enum SolarEvent {
    Sunrise,
    Sunset,
}

/// An edge of a window of time.
#[derive(Debug, Clone, Copy, PartialEq, Eq, Structural)]
pub enum TimeBoundary {
    Fixed { minute_of_day: u16 },
    Solar { event: SolarEvent, offset_minutes: i16 },
}

/// What a light rule does outside its window.
#[derive(Debug, Clone, Copy, PartialEq, Eq, Structural)]
pub enum OutsideWindowBehavior {
    TurnOff,
    StopControlling,
}

/// The window in which a light rule controls a plug.
#[derive(Debug, Clone, Copy, PartialEq, Eq, Structural)]
pub struct ActiveWindow {
    pub start: TimeBoundary,
    pub end: TimeBoundary,
    pub outside: OutsideWindowBehavior,
}

/// What sets a rule off. Weekdays count from Sunday.
#[derive(Debug, Clone, Copy, PartialEq)]
pub enum AutomationTrigger {
    FixedTime { minute_of_day: u16, weekdays: [bool; 7] },
    Solar { event: SolarEvent, offset_minutes: i16, weekdays: [bool; 7] },
    LightLevel { on_below: Quantity, off_above: Quantity, active_window: Option<ActiveWindow> },
}

/// A rule that switches a plug or a group. A timed rule remembers the last day it acted on.
#[derive(Debug, Clone, PartialEq)]
pub struct AutomationRule {
    pub id: u64,
    pub device_id: String,
    pub name: String,
    pub enabled: bool,
    pub trigger: AutomationTrigger,
    pub turn_on: bool,
    pub last_solar_day: Option<i64>,
}

/// A rule to be added.
#[derive(Debug, Clone, PartialEq)]
pub struct NewAutomation {
    pub device_id: String,
    pub name: String,
    pub enabled: bool,
    pub trigger: AutomationTrigger,
    pub turn_on: bool,
}

/// What a rule asks for: the state of the relay, and for a timed rule the day to remember.
#[derive(Debug, Clone, Copy, PartialEq, Eq, Structural)]
pub struct RuleEvaluation {
    pub turn_on: bool,
    pub trigger_day: Option<i64>,
}

/// The local day of a forecast.
pub open spec fn weather_day(weather: WeatherSnapshot) -> int {
    crate::clock::day_of(weather.time as int, weather.utc_offset_seconds as int)
}

/// The seconds since local midnight of a forecast.
pub open spec fn weather_seconds(weather: WeatherSnapshot) -> int {
    crate::clock::seconds_of_day(weather.time as int, weather.utc_offset_seconds as int)
}

/// When the sun does it.
pub open spec fn solar_time(event: SolarEvent, weather: WeatherSnapshot) -> int {
    match event {
        SolarEvent::Sunrise => weather.sunrise as int,
        SolarEvent::Sunset => weather.sunset as int,
    }
}

/// What a timed rule asks for: to act, once a day, on its weekdays, from its moment on for as
/// long as the trigger window lasts.
pub open spec fn timed_evaluation(
    rule: AutomationRule,
    weather: WeatherSnapshot,
    moment: int,
    weekdays: [bool; 7],
) -> Option<RuleEvaluation> {
    let day = weather_day(weather);
    if rule.last_solar_day == Some(day as i64) || !weekdays[crate::clock::weekday(day)] {
        None
    } else if moment <= weather.time < moment + TRIGGER_WINDOW_SECONDS {
        Some(RuleEvaluation { turn_on: rule.turn_on, trigger_day: Some(day as i64) })
    } else {
        None
    }
}

/// The second of the day on which an edge of a window falls.
pub open spec fn boundary_second(boundary: TimeBoundary, weather: WeatherSnapshot) -> int {
    match boundary {
        TimeBoundary::Fixed { minute_of_day } => minute_of_day * 60,
        TimeBoundary::Solar { event, offset_minutes } => (solar_time(event, weather)
            + weather.utc_offset_seconds + offset_minutes * 60) % 86_400,
    }
}

/// Whether a second lies in a window of the day, which may run over midnight. A window that
/// begins where it ends is the whole day.
pub open spec fn within(second: int, start: int, end: int) -> bool {
    if start < end {
        start <= second < end
    } else if start == end {
        true
    } else {
        start <= second || second < end
    }
}

/// Whether the moment of a forecast lies in a window.
pub open spec fn in_window(window: ActiveWindow, weather: WeatherSnapshot) -> bool {
    within(
        weather_seconds(weather),
        boundary_second(window.start, weather),
        boundary_second(window.end, weather),
    )
}

/// What a light rule asks for inside its window: on in the dark, off in the light, and
/// nothing in between.
pub open spec fn light_evaluation(
    radiation: Quantity,
    on_below: Quantity,
    off_above: Quantity,
) -> Option<RuleEvaluation> {
    if crate::quantity::at_most(radiation, on_below) {
        Some(RuleEvaluation { turn_on: true, trigger_day: None })
    } else if crate::quantity::at_most(off_above, radiation) {
        Some(RuleEvaluation { turn_on: false, trigger_day: None })
    } else {
        None
    }
}

/// What a rule asks for at the moment of a forecast.
pub open spec fn evaluation(rule: AutomationRule, weather: WeatherSnapshot) -> Option<
    RuleEvaluation,
> {
    match rule.trigger {
        AutomationTrigger::FixedTime { minute_of_day, weekdays } => timed_evaluation(
            rule,
            weather,
            weather.time - weather_seconds(weather) + minute_of_day * 60,
            weekdays,
        ),
        AutomationTrigger::Solar { event, offset_minutes, weekdays } => timed_evaluation(
            rule,
            weather,
            solar_time(event, weather) + offset_minutes * 60,
            weekdays,
        ),
        AutomationTrigger::LightLevel { on_below, off_above, active_window } => {
            if active_window is Some && !in_window(active_window->0, weather) {
                match active_window->0.outside {
                    OutsideWindowBehavior::TurnOff => Some(
                        RuleEvaluation { turn_on: false, trigger_day: None },
                    ),
                    OutsideWindowBehavior::StopControlling => None,
                }
            } else {
                light_evaluation(weather.shortwave_radiation, on_below, off_above)
            }
        },
    }
}

fn timed_rule_evaluation(
    rule: &AutomationRule,
    weather: &WeatherSnapshot,
    moment: i128,
    weekdays: [bool; 7],
) -> (result: Option<RuleEvaluation>)
    requires
        -0x1_0000_0000_0000_0000 <= moment <= 0x1_0000_0000_0000_0000,
    ensures
        result == timed_evaluation(*rule, *weather, moment as int, weekdays),
{
    let day: i64 = local_day(weather.time, weather.utc_offset_seconds);
    let acted = match rule.last_solar_day {
        Some(last) => last == day,
        None => false,
    };
    if acted || !weekdays[weekday_index(day as i128)] {
        return None;
    }
    let time: i128 = weather.time as i128;
    if moment <= time && time < moment + TRIGGER_WINDOW_SECONDS as i128 {
        Some(RuleEvaluation { turn_on: rule.turn_on, trigger_day: Some(day) })
    } else {
        None
    }
}

fn solar_event_time(event: SolarEvent, weather: &WeatherSnapshot) -> (time: i128)
    ensures
        time == solar_time(event, *weather),
{
    match event {
        SolarEvent::Sunrise => weather.sunrise as i128,
        SolarEvent::Sunset => weather.sunset as i128,
    }
}

fn boundary_seconds(boundary: TimeBoundary, weather: &WeatherSnapshot) -> (second: i128)
    ensures
        second == boundary_second(boundary, *weather),
{
    match boundary {
        TimeBoundary::Fixed { minute_of_day } => minute_of_day as i128 * 60,
        TimeBoundary::Solar { event, offset_minutes } => remainder(
            solar_event_time(event, weather) + weather.utc_offset_seconds as i128
                + offset_minutes as i128 * 60,
            86_400,
        ),
    }
}

/// Whether the moment of a forecast lies in a window.
pub fn window_contains(window: ActiveWindow, weather: &WeatherSnapshot) -> (result: bool)
    ensures
        result == in_window(window, *weather),
{
    let current: i128 = local_seconds(weather.time, weather.utc_offset_seconds) as i128;
    let start: i128 = boundary_seconds(window.start, weather);
    let end: i128 = boundary_seconds(window.end, weather);
    if start < end {
        current >= start && current < end
    } else if start == end {
        true
    } else {
        current >= start || current < end
    }
}

/// What a rule asks for at the moment of a forecast.
pub fn evaluate_rule(rule: &AutomationRule, weather: &WeatherSnapshot) -> (result: Option<
    RuleEvaluation,
>)
    ensures
        result == evaluation(*rule, *weather),
{
    match rule.trigger {
        AutomationTrigger::FixedTime { minute_of_day, weekdays } => {
            let seconds: i64 = local_seconds(weather.time, weather.utc_offset_seconds);
            timed_rule_evaluation(
                rule,
                weather,
                weather.time as i128 - seconds as i128 + minute_of_day as i128 * 60,
                weekdays,
            )
        },
        AutomationTrigger::Solar { event, offset_minutes, weekdays } => timed_rule_evaluation(
            rule,
            weather,
            solar_event_time(event, weather) + offset_minutes as i128 * 60,
            weekdays,
        ),
        AutomationTrigger::LightLevel { on_below, off_above, active_window } => {
            if let Some(window) = active_window {
                if !window_contains(window, weather) {
                    return match window.outside {
                        OutsideWindowBehavior::TurnOff => Some(
                            RuleEvaluation { turn_on: false, trigger_day: None },
                        ),
                        OutsideWindowBehavior::StopControlling => None,
                    };
                }
            }
            if weather.shortwave_radiation.at_most(&on_below) {
                Some(RuleEvaluation { turn_on: true, trigger_day: None })
            } else if off_above.at_most(&weather.shortwave_radiation) {
                Some(RuleEvaluation { turn_on: false, trigger_day: None })
            } else {
                None
            }
        },
    }
}

/// Whether a rule goes by time rather than by light.
pub open spec fn is_timed(trigger: AutomationTrigger) -> bool {
    !(trigger is LightLevel)
}

/// A timed rule that has acted asks for nothing more on the same local day, once that day is
/// remembered.
pub proof fn law_timed_rules_act_once_a_day(
    rule: AutomationRule,
    first: WeatherSnapshot,
    remembered: AutomationRule,
    later: WeatherSnapshot,
)
    requires
        is_timed(rule.trigger),
        evaluation(rule, first) is Some,
        remembered.trigger == rule.trigger,
        remembered.last_solar_day == evaluation(rule, first)->0.trigger_day,
        weather_day(later) == weather_day(first),
    ensures
        evaluation(remembered, later) is None,
{
}

/// The moment of a timed rule on the day of a forecast.
pub open spec fn timed_moment(trigger: AutomationTrigger, weather: WeatherSnapshot) -> int {
    match trigger {
        AutomationTrigger::FixedTime { minute_of_day, .. } => weather.time - weather_seconds(weather)
            + minute_of_day * 60,
        AutomationTrigger::Solar { event, offset_minutes, .. } => solar_time(event, weather)
            + offset_minutes * 60,
        AutomationTrigger::LightLevel { .. } => 0,
    }
}

/// Whether a timed rule acts on a weekday.
pub open spec fn acts_on(trigger: AutomationTrigger, weekday: int) -> bool {
    match trigger {
        AutomationTrigger::FixedTime { weekdays, .. } => weekdays[weekday],
        AutomationTrigger::Solar { weekdays, .. } => weekdays[weekday],
        AutomationTrigger::LightLevel { .. } => false,
    }
}

/// A timed rule acts exactly within the trigger window after its moment, on one of its
/// weekdays, where it has not acted that day. It asks for its own state then. A light rule
/// leaves no day to remember.
pub proof fn law_evaluation_follows_trigger(rule: AutomationRule, weather: WeatherSnapshot)
    ensures
        is_timed(rule.trigger) ==> (evaluation(rule, weather) is Some <==> {
            &&& timed_moment(rule.trigger, weather) <= weather.time < timed_moment(
                rule.trigger,
                weather,
            ) + TRIGGER_WINDOW_SECONDS
            &&& acts_on(rule.trigger, crate::clock::weekday(weather_day(weather)))
            &&& rule.last_solar_day != Some(weather_day(weather) as i64)
        }),
        is_timed(rule.trigger) && evaluation(rule, weather) is Some ==> {
            &&& evaluation(rule, weather)->0.turn_on == rule.turn_on
            &&& evaluation(rule, weather)->0.trigger_day == Some(weather_day(weather) as i64)
        },
        !is_timed(rule.trigger) && evaluation(rule, weather) is Some ==> evaluation(
            rule,
            weather,
        )->0.trigger_day is None,
{
}

/// Between its thresholds a light rule without a window leaves the relay as it is, and at
/// the thresholds it does not.
pub proof fn law_light_rule_has_hysteresis(rule: AutomationRule, weather: WeatherSnapshot)
    requires
        rule.trigger is LightLevel,
        rule.trigger->active_window is None,
        crate::quantity::is_number(weather.shortwave_radiation),
        crate::quantity::less(rule.trigger->on_below, rule.trigger->off_above),
    ensures
        evaluation(rule, weather) is None <==> crate::quantity::less(
            rule.trigger->on_below,
            weather.shortwave_radiation,
        ) && crate::quantity::less(weather.shortwave_radiation, rule.trigger->off_above),
        evaluation(rule, weather) is Some ==> evaluation(rule, weather)->0.turn_on
            == crate::quantity::at_most(weather.shortwave_radiation, rule.trigger->on_below),
{
}

/// A place on earth in ten-thousandths of a degree.
#[derive(Debug, Clone, Copy, PartialEq, Eq, Structural)]
pub struct Coordinate {
    pub latitude: i32,
    pub longitude: i32,
}

/// The place of a plug, where it knows both its latitude and its longitude.
pub open spec fn place_of(plug: SmartPlug) -> Option<Coordinate> {
    match (plug.latitude, plug.longitude) {
        (Some(latitude), Some(longitude)) => Some(
            Coordinate {
                latitude: latitude.ten_thousandths,
                longitude: longitude.ten_thousandths,
            },
        ),
        _ => None,
    }
}

impl Coordinate {
    /// The place of a plug, where it knows both its latitude and its longitude.
    pub fn from_plug(plug: &SmartPlug) -> (place: Option<Coordinate>)
        ensures
            place == place_of(*plug),
    {
        match (&plug.latitude, &plug.longitude) {
            (Some(latitude), Some(longitude)) => Some(
            Coordinate {
                latitude: latitude.ten_thousandths,
                longitude: longitude.ten_thousandths,
            },
        ),
            _ => None,
        }
    }
}

fn same_weekdays(left: [bool; 7], right: [bool; 7]) -> (result: bool)
    ensures
        result == (left == right),
{
    let mut index: usize = 0;
    while index < 7
        invariant
            index <= 7,
            forall|i: int| 0 <= i < index ==> #[trigger] left[i] == right[i],
        decreases 7 - index,
    {
        if left[index] != right[index] {
            return false;
        }
        index = index + 1;
    }
    proof {
        assert(left@ =~= right@);
        assert(left =~= right);
    }
    true
}

fn same_window(left: Option<ActiveWindow>, right: Option<ActiveWindow>) -> (result: bool)
    ensures
        result == (left == right),
{
    match (left, right) {
        (Some(left), Some(right)) => left == right,
        (None, None) => true,
        _ => false,
    }
}

/// Whether two rules are set off by the same.
pub fn same_trigger(left: &AutomationTrigger, right: &AutomationTrigger) -> (result: bool)
    ensures
        result == (*left == *right),
{
    match (*left, *right) {
        (
            AutomationTrigger::FixedTime { minute_of_day, weekdays },
            AutomationTrigger::FixedTime { minute_of_day: other_minute, weekdays: other_weekdays },
        ) => minute_of_day == other_minute && same_weekdays(weekdays, other_weekdays),
        (
            AutomationTrigger::Solar { event, offset_minutes, weekdays },
            AutomationTrigger::Solar {
                event: other_event,
                offset_minutes: other_offset,
                weekdays: other_weekdays,
            },
        ) => event == other_event && offset_minutes == other_offset && same_weekdays(
            weekdays,
            other_weekdays,
        ),
        (
            AutomationTrigger::LightLevel { on_below, off_above, active_window },
            AutomationTrigger::LightLevel {
                on_below: other_on,
                off_above: other_off,
                active_window: other_window,
            },
        ) => on_below == other_on && off_above == other_off && same_window(
            active_window,
            other_window,
        ),
        _ => false,
    }
}

/// A rule after an edit: it keeps its identity, its device and whether it is enabled, and it
/// forgets the day it acted on where the edit changes what sets it off or what it does.
pub fn edited_rule(rule: AutomationRule, edit: NewAutomation) -> (edited: AutomationRule)
    ensures
        edited.id == rule.id,
        edited.device_id == rule.device_id,
        edited.enabled == rule.enabled,
        edited.name == edit.name,
        edited.trigger == edit.trigger,
        edited.turn_on == edit.turn_on,
        edited.last_solar_day == (if rule.trigger == edit.trigger && rule.turn_on == edit.turn_on {
            rule.last_solar_day
        } else {
            None
        }),
{
    let unchanged = same_trigger(&rule.trigger, &edit.trigger) && rule.turn_on == edit.turn_on;
    AutomationRule {
        id: rule.id,
        device_id: rule.device_id,
        name: edit.name,
        enabled: rule.enabled,
        trigger: edit.trigger,
        turn_on: edit.turn_on,
        last_solar_day: if unchanged {
            rule.last_solar_day
        } else {
            None
        },
    }
}

} // verus!
