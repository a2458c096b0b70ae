//! Forms: what a user enters, and the rules and groups that are made of it.
use crate::automation::{
    ActiveWindow, AutomationTrigger, NewAutomation, OutsideWindowBehavior, SolarEvent, TimeBoundary,
};
use crate::json::Member;
use crate::quantity::Quantity;
use crate::rules::CountdownRule;
use crate::text::{characters, digit_of, precedes, same_text, starts_with, text_of, trim};
use vstd::prelude::*;
use vstd::string::*;

verus! {

/// Why a request to the web pages failed: a status of the protocol and a message.
#[derive(Debug)]
pub struct AppError {
    pub status: u16,
    pub message: String,
}

/// Whether an error refuses a request with a message.
pub open spec fn refuses(error: AppError, message: Seq<char>) -> bool {
    error.status == 400 && error.message@ == message
}

impl AppError {
    /// The request makes no sense.
    pub fn bad_request(message: &str) -> (error: AppError)
        ensures
            refuses(error, message@),
    {
        AppError { status: 400, message: message.to_owned() }
    }

    /// What the request speaks of does not exist.
    pub fn not_found(message: &str) -> (error: AppError)
        ensures
            error.status == 404,
            error.message@ == message@,
    {
        AppError { status: 404, message: message.to_owned() }
    }

    /// The request cannot be served.
    pub fn internal(message: &str) -> (error: AppError)
        ensures
            error.status == 500,
            error.message@ == message@,
    {
        AppError { status: 500, message: message.to_owned() }
    }
}

/// The longest name of a schedule or a group, in characters.
pub const MAX_NAME_LENGTH: usize = 64;

/// The name of a schedule out of what was entered, or why there is none.
pub open spec fn schedule_name(value: Seq<char>) -> Result<Seq<char>, Seq<char>> {
    let name = crate::text::trimmed(value);
    if name.len() == 0 {
        Err("schedule name cannot be empty"@)
    } else if name.len() > MAX_NAME_LENGTH {
        Err("schedule name cannot exceed 64 characters"@)
    } else {
        Ok(name)
    }
}

/// The name of a schedule out of what was entered.
pub fn validated_schedule_name(value: &str) -> (result: Result<String, AppError>)
    ensures
        match schedule_name(value@) {
            Ok(name) => result is Ok && result->Ok_0@ == name,
            Err(message) => result is Err && refuses(result->Err_0, message),
        },
{
    let name = trim(value);
    let length: usize = name.unicode_len();
    if length == 0 {
        return Err(AppError::bad_request("schedule name cannot be empty"));
    }
    if length > MAX_NAME_LENGTH {
        return Err(AppError::bad_request("schedule name cannot exceed 64 characters"));
    }
    Ok(name.to_owned())
}

/// Whether a text has the form of a time: two digits, a colon, two digits.
pub open spec fn time_shaped(value: Seq<char>) -> bool {
    &&& value.len() == 5
    &&& crate::text::is_digit(value[0])
    &&& crate::text::is_digit(value[1])
    &&& value[2] == ':'
    &&& crate::text::is_digit(value[3])
    &&& crate::text::is_digit(value[4])
}

/// The minute of the day that a text says, or why it says none.
pub open spec fn time_of_day(value: Seq<char>) -> Result<int, Seq<char>> {
    if !time_shaped(value) {
        Err("schedule time must use HH:MM format"@)
    } else {
        let hour = crate::text::digit_value(value[0]) * 10 + crate::text::digit_value(value[1]);
        let minute = crate::text::digit_value(value[3]) * 10 + crate::text::digit_value(value[4]);
        if hour > 23 || minute > 59 {
            Err("schedule time must be between 00:00 and 23:59"@)
        } else {
            Ok(hour * 60 + minute)
        }
    }
}

/// The minute of the day that a text says.
pub fn parse_schedule_time(value: &str) -> (result: Result<u16, AppError>)
    ensures
        match time_of_day(value@) {
            Ok(minute) => result is Ok && result->Ok_0 == minute,
            Err(message) => result is Err && refuses(result->Err_0, message),
        },
        result is Ok ==> result->Ok_0 < 1_440,
{
    let text = characters(value);
    if text.len() == 5 && text[2] == ':' {
        match (digit_of(text[0]), digit_of(text[1]), digit_of(text[3]), digit_of(text[4])) {
            (Some(a), Some(b), Some(c), Some(d)) => {
                let hour: u16 = a * 10 + b;
                let minute: u16 = c * 10 + d;
                if hour > 23 || minute > 59 {
                    return Err(
                        AppError::bad_request("schedule time must be between 00:00 and 23:59"),
                    );
                }
                return Ok(hour * 60 + minute);
            },
            _ => {},
        }
    }
    Err(AppError::bad_request("schedule time must use HH:MM format"))
}

/// The state that a rule is to set, or why none.
pub open spec fn action(value: Seq<char>) -> Result<bool, Seq<char>> {
    if value == "on"@ {
        Ok(true)
    } else if value == "off"@ {
        Ok(false)
    } else {
        Err("automation action must be on or off"@)
    }
}

/// The state that a rule is to set.
pub fn parse_action(value: &str) -> (result: Result<bool, AppError>)
    ensures
        match action(value@) {
            Ok(on) => result is Ok && result->Ok_0 == on,
            Err(message) => result is Err && refuses(result->Err_0, message),
        },
{
    if same_text(value, "on") {
        Ok(true)
    } else if same_text(value, "off") {
        Ok(false)
    } else {
        Err(AppError::bad_request("automation action must be on or off"))
    }
}

/// The checkboxes of the days of a week.
#[derive(Debug)]
pub struct WeekdayFields {
    pub sun: Option<String>,
    pub mon: Option<String>,
    pub tue: Option<String>,
    pub wed: Option<String>,
    pub thu: Option<String>,
    pub fri: Option<String>,
    pub sat: Option<String>,
}

/// Whether a day was selected.
pub open spec fn selects(fields: WeekdayFields, day: int) -> bool {
    if day == 0 {
        fields.sun is Some
    } else if day == 1 {
        fields.mon is Some
    } else if day == 2 {
        fields.tue is Some
    } else if day == 3 {
        fields.wed is Some
    } else if day == 4 {
        fields.thu is Some
    } else if day == 5 {
        fields.fri is Some
    } else {
        fields.sat is Some
    }
}

/// Whether any day was selected.
pub open spec fn selects_any(fields: WeekdayFields) -> bool {
    exists|day: int| 0 <= day < 7 && #[trigger] selects(fields, day)
}

/// What is said where no day was selected.
pub open spec fn no_weekday() -> Seq<char> {
    "select at least one weekday for the schedule"@
}

/// Whether these are the days that were selected.
pub open spec fn selected(fields: WeekdayFields, weekdays: [bool; 7]) -> bool {
    forall|day: int| 0 <= day < 7 ==> #[trigger] weekdays[day] == selects(fields, day)
}

/// The days that were selected, of which there must be one.
pub fn schedule_weekdays(fields: &WeekdayFields) -> (result: Result<[bool; 7], AppError>)
    ensures
        if selects_any(*fields) {
            result is Ok && selected(*fields, result->Ok_0)
        } else {
            result is Err && refuses(result->Err_0, no_weekday())
        },
{
    let weekdays: [bool; 7] = [
        fields.sun.is_some(),
        fields.mon.is_some(),
        fields.tue.is_some(),
        fields.wed.is_some(),
        fields.thu.is_some(),
        fields.fri.is_some(),
        fields.sat.is_some(),
    ];
    if weekdays[0] || weekdays[1] || weekdays[2] || weekdays[3] || weekdays[4] || weekdays[5]
        || weekdays[6] {
        proof {
            assert(selects(*fields, 0) || selects(*fields, 1) || selects(*fields, 2) || selects(
                *fields,
                3,
            ) || selects(*fields, 4) || selects(*fields, 5) || selects(*fields, 6));
        }
        return Ok(weekdays);
    }
    Err(AppError::bad_request("select at least one weekday for the schedule"))
}

/// A form for a rule at a fixed time.
#[derive(Debug)]
pub struct ScheduleForm {
    pub name: String,
    pub time: String,
    pub action: String,
    pub weekdays: WeekdayFields,
}

/// Why a form for a rule at a fixed time is refused, if it is. The name counts first, then
/// the time, the action and the weekdays.
pub open spec fn fixed_refusal(form: ScheduleForm) -> Option<Seq<char>> {
    if schedule_name(form.name@) is Err {
        Some(schedule_name(form.name@)->Err_0)
    } else if time_of_day(form.time@) is Err {
        Some(time_of_day(form.time@)->Err_0)
    } else if action(form.action@) is Err {
        Some(action(form.action@)->Err_0)
    } else if !selects_any(form.weekdays) {
        Some(no_weekday())
    } else {
        None
    }
}

/// Whether this is the rule at a fixed time that a form asks for.
pub open spec fn is_fixed_rule(
    automation: NewAutomation,
    form: ScheduleForm,
    device_id: String,
) -> bool {
    &&& automation.device_id == device_id
    &&& automation.name@ == schedule_name(form.name@)->Ok_0
    &&& automation.enabled
    &&& automation.turn_on == action(form.action@)->Ok_0
    &&& automation.trigger matches AutomationTrigger::FixedTime { minute_of_day, weekdays }
        && minute_of_day == time_of_day(form.time@)->Ok_0 && selected(form.weekdays, weekdays)
}

/// The rule at a fixed time that a form asks for.
pub fn fixed_automation(form: ScheduleForm, device_id: String) -> (result: Result<
    NewAutomation,
    AppError,
>)
    ensures
        match fixed_refusal(form) {
            Some(message) => result is Err && refuses(result->Err_0, message),
            None => result is Ok && is_fixed_rule(result->Ok_0, form, device_id),
        },
{
    let name = match validated_schedule_name(form.name.as_str()) {
        Ok(name) => name,
        Err(error) => return Err(error),
    };
    let minute_of_day: u16 = match parse_schedule_time(form.time.as_str()) {
        Ok(minute) => minute,
        Err(error) => return Err(error),
    };
    let turn_on = match parse_action(form.action.as_str()) {
        Ok(on) => on,
        Err(error) => return Err(error),
    };
    let weekdays = match schedule_weekdays(&form.weekdays) {
        Ok(weekdays) => weekdays,
        Err(error) => return Err(error),
    };
    Ok(
        NewAutomation {
            device_id,
            name,
            enabled: true,
            trigger: AutomationTrigger::FixedTime { minute_of_day, weekdays },
            turn_on,
        },
    )
}

/// The furthest that a rule may lie from what the sun does, in minutes.
pub const MAX_SOLAR_OFFSET: i16 = 180;

/// Whether a rule may lie that far from what the sun does.
pub open spec fn offset_allowed(offset_minutes: i16) -> bool {
    -MAX_SOLAR_OFFSET <= offset_minutes <= MAX_SOLAR_OFFSET
}

/// What is said of an offset that is too large.
pub open spec fn offset_refused() -> Seq<char> {
    "solar offset must be between -180 and 180 minutes"@
}

/// What the sun does, by its name.
pub open spec fn solar_event(name: Seq<char>) -> Option<SolarEvent> {
    if name == "sunrise"@ {
        Some(SolarEvent::Sunrise)
    } else if name == "sunset"@ {
        Some(SolarEvent::Sunset)
    } else {
        None
    }
}

fn parse_solar_event(name: &str) -> (event: Option<SolarEvent>)
    ensures
        event == solar_event(name@),
{
    if same_text(name, "sunrise") {
        Some(SolarEvent::Sunrise)
    } else if same_text(name, "sunset") {
        Some(SolarEvent::Sunset)
    } else {
        None
    }
}

/// A form for a rule by the sun.
#[derive(Debug)]
pub struct SolarAutomationForm {
    pub name: String,
    pub event: String,
    pub offset_minutes: i16,
    pub action: String,
    pub weekdays: WeekdayFields,
}

/// Why a form for a rule by the sun is refused, if it is. The name counts first, then the
/// offset, the event, the action and the weekdays.
pub open spec fn solar_refusal(form: SolarAutomationForm) -> Option<Seq<char>> {
    if schedule_name(form.name@) is Err {
        Some(schedule_name(form.name@)->Err_0)
    } else if !offset_allowed(form.offset_minutes) {
        Some(offset_refused())
    } else if solar_event(form.event@) is None {
        Some("solar event must be sunrise or sunset"@)
    } else if action(form.action@) is Err {
        Some(action(form.action@)->Err_0)
    } else if !selects_any(form.weekdays) {
        Some(no_weekday())
    } else {
        None
    }
}

/// Whether this is the rule by the sun that a form asks for.
pub open spec fn is_solar_rule(
    automation: NewAutomation,
    form: SolarAutomationForm,
    device_id: String,
) -> bool {
    &&& automation.device_id == device_id
    &&& automation.name@ == schedule_name(form.name@)->Ok_0
    &&& automation.enabled
    &&& automation.turn_on == action(form.action@)->Ok_0
    &&& automation.trigger matches AutomationTrigger::Solar { event, offset_minutes, weekdays }
        && event == solar_event(form.event@)->0 && offset_minutes == form.offset_minutes
        && selected(form.weekdays, weekdays)
}

/// The rule by the sun that a form asks for.
pub fn solar_automation(form: SolarAutomationForm, device_id: String) -> (result: Result<
    NewAutomation,
    AppError,
>)
    ensures
        match solar_refusal(form) {
            Some(message) => result is Err && refuses(result->Err_0, message),
            None => result is Ok && is_solar_rule(result->Ok_0, form, device_id),
        },
{
    let name = match validated_schedule_name(form.name.as_str()) {
        Ok(name) => name,
        Err(error) => return Err(error),
    };
    if form.offset_minutes < -MAX_SOLAR_OFFSET || form.offset_minutes > MAX_SOLAR_OFFSET {
        return Err(AppError::bad_request("solar offset must be between -180 and 180 minutes"));
    }
    let event = match parse_solar_event(form.event.as_str()) {
        Some(event) => event,
        None => return Err(AppError::bad_request("solar event must be sunrise or sunset")),
    };
    let turn_on = match parse_action(form.action.as_str()) {
        Ok(on) => on,
        Err(error) => return Err(error),
    };
    let weekdays = match schedule_weekdays(&form.weekdays) {
        Ok(weekdays) => weekdays,
        Err(error) => return Err(error),
    };
    Ok(
        NewAutomation {
            device_id,
            name,
            enabled: true,
            trigger: AutomationTrigger::Solar {
                event,
                offset_minutes: form.offset_minutes,
                weekdays,
            },
            turn_on,
        },
    )
}

/// An edge of a window out of what was entered, or why there is none.
pub open spec fn boundary(kind: Seq<char>, time: Seq<char>, offset_minutes: i16) -> Result<
    TimeBoundary,
    Seq<char>,
> {
    if kind == "fixed"@ {
        match time_of_day(time) {
            Ok(minute) => Ok(TimeBoundary::Fixed { minute_of_day: minute as u16 }),
            Err(message) => Err(message),
        }
    } else {
        match solar_event(kind) {
            Some(event) => if offset_allowed(offset_minutes) {
                Ok(TimeBoundary::Solar { event, offset_minutes })
            } else {
                Err(offset_refused())
            },
            None => Err("window boundary must be a fixed time, sunrise, or sunset"@),
        }
    }
}

/// An edge of a window out of what was entered.
pub fn parse_time_boundary(kind: &str, time: &str, offset_minutes: i16) -> (result: Result<
    TimeBoundary,
    AppError,
>)
    ensures
        match boundary(kind@, time@, offset_minutes) {
            Ok(edge) => result is Ok && result->Ok_0 == edge,
            Err(message) => result is Err && refuses(result->Err_0, message),
        },
{
    if same_text(kind, "fixed") {
        return match parse_schedule_time(time) {
            Ok(minute_of_day) => Ok(TimeBoundary::Fixed { minute_of_day }),
            Err(error) => Err(error),
        };
    }
    match parse_solar_event(kind) {
        Some(event) => {
            if offset_minutes < -MAX_SOLAR_OFFSET || offset_minutes > MAX_SOLAR_OFFSET {
                return Err(
                    AppError::bad_request("solar offset must be between -180 and 180 minutes"),
                );
            }
            Ok(TimeBoundary::Solar { event, offset_minutes })
        },
        None => Err(
            AppError::bad_request("window boundary must be a fixed time, sunrise, or sunset"),
        ),
    }
}

/// A form for a rule by light.
#[derive(Debug)]
pub struct LightAutomationForm {
    pub name: String,
    pub on_below: Quantity,
    pub off_above: Quantity,
    pub window_enabled: Option<String>,
    pub start_kind: String,
    pub start_time: String,
    pub start_offset_minutes: i16,
    pub end_kind: String,
    pub end_time: String,
    pub end_offset_minutes: i16,
    pub outside_window: String,
}

/// The bits of zero.
pub const ZERO_BITS: u64 = 0;

/// The bits of fifteen hundred, the most light in watts per square metre.
pub const MOST_LIGHT_BITS: u64 = 0x4097_7000_0000_0000;

/// Whether the thresholds of a light rule make sense: finite, from zero to the most light,
/// and the lower below the higher.
pub open spec fn thresholds_allowed(on_below: Quantity, off_above: Quantity) -> bool {
    &&& crate::quantity::is_finite(on_below)
    &&& crate::quantity::is_finite(off_above)
    &&& crate::quantity::at_most((Quantity { bits: ZERO_BITS }), on_below)
    &&& crate::quantity::at_most(off_above, (Quantity { bits: MOST_LIGHT_BITS }))
    &&& crate::quantity::less(on_below, off_above)
}

/// What a light rule is to do outside its window, or why nothing.
pub open spec fn outside(value: Seq<char>) -> Result<OutsideWindowBehavior, Seq<char>> {
    if value == "turn_off"@ {
        Ok(OutsideWindowBehavior::TurnOff)
    } else if value == "stop_controlling"@ {
        Ok(OutsideWindowBehavior::StopControlling)
    } else {
        Err("outside-window behavior must be turn off or stop controlling"@)
    }
}

/// The window that a form asks for, or why there is none. Its start counts first, then its
/// end, then what is outside.
pub open spec fn form_window(form: LightAutomationForm) -> Result<
    Option<ActiveWindow>,
    Seq<char>,
> {
    if form.window_enabled is None {
        Ok(None)
    } else {
        match boundary(form.start_kind@, form.start_time@, form.start_offset_minutes) {
            Err(message) => Err(message),
            Ok(start) => match boundary(form.end_kind@, form.end_time@, form.end_offset_minutes) {
                Err(message) => Err(message),
                Ok(end) => match outside(form.outside_window@) {
                    Err(message) => Err(message),
                    Ok(behavior) => Ok(Some(ActiveWindow { start, end, outside: behavior })),
                },
            },
        }
    }
}

/// Why a form for a rule by light is refused, if it is. The thresholds count first, then the
/// name and the window.
pub open spec fn light_refusal(form: LightAutomationForm) -> Option<Seq<char>> {
    if !thresholds_allowed(form.on_below, form.off_above) {
        Some("light thresholds must satisfy 0 ≤ on below < off above ≤ 1500 W/m²"@)
    } else if schedule_name(form.name@) is Err {
        Some(schedule_name(form.name@)->Err_0)
    } else if form_window(form) is Err {
        Some(form_window(form)->Err_0)
    } else {
        None
    }
}

/// Whether this is the rule by light that a form asks for.
pub open spec fn is_light_rule(
    automation: NewAutomation,
    form: LightAutomationForm,
    device_id: String,
) -> bool {
    &&& automation.device_id == device_id
    &&& automation.name@ == schedule_name(form.name@)->Ok_0
    &&& automation.enabled
    &&& automation.turn_on
    &&& automation.trigger == AutomationTrigger::LightLevel {
        on_below: form.on_below,
        off_above: form.off_above,
        active_window: form_window(form)->Ok_0,
    }
}

fn parse_window(form: &LightAutomationForm) -> (result: Result<Option<ActiveWindow>, AppError>)
    ensures
        match form_window(*form) {
            Ok(window) => result is Ok && result->Ok_0 == window,
            Err(message) => result is Err && refuses(result->Err_0, message),
        },
{
    if form.window_enabled.is_none() {
        return Ok(None);
    }
    let start = match parse_time_boundary(
        form.start_kind.as_str(),
        form.start_time.as_str(),
        form.start_offset_minutes,
    ) {
        Ok(edge) => edge,
        Err(error) => return Err(error),
    };
    let end = match parse_time_boundary(
        form.end_kind.as_str(),
        form.end_time.as_str(),
        form.end_offset_minutes,
    ) {
        Ok(edge) => edge,
        Err(error) => return Err(error),
    };
    let outside = if same_text(form.outside_window.as_str(), "turn_off") {
        OutsideWindowBehavior::TurnOff
    } else if same_text(form.outside_window.as_str(), "stop_controlling") {
        OutsideWindowBehavior::StopControlling
    } else {
        return Err(
            AppError::bad_request("outside-window behavior must be turn off or stop controlling"),
        );
    };
    Ok(Some(ActiveWindow { start, end, outside }))
}

/// The rule by light that a form asks for.
pub fn light_automation(form: LightAutomationForm, device_id: String) -> (result: Result<
    NewAutomation,
    AppError,
>)
    ensures
        match light_refusal(form) {
            Some(message) => result is Err && refuses(result->Err_0, message),
            None => result is Ok && is_light_rule(result->Ok_0, form, device_id),
        },
{
    let zero = Quantity { bits: ZERO_BITS };
    let most = Quantity { bits: MOST_LIGHT_BITS };
    if !form.on_below.finite() || !form.off_above.finite() || !zero.at_most(&form.on_below)
        || !form.off_above.at_most(&most) || !form.on_below.less(&form.off_above) {
        return Err(
            AppError::bad_request(
                "light thresholds must satisfy 0 ≤ on below < off above ≤ 1500 W/m²",
            ),
        );
    }
    let name = match validated_schedule_name(form.name.as_str()) {
        Ok(name) => name,
        Err(error) => return Err(error),
    };
    let active_window = match parse_window(&form) {
        Ok(window) => window,
        Err(error) => return Err(error),
    };
    Ok(
        NewAutomation {
            device_id,
            name,
            enabled: true,
            trigger: AutomationTrigger::LightLevel {
                on_below: form.on_below,
                off_above: form.off_above,
                active_window,
            },
            turn_on: true,
        },
    )
}

/// A rule that a form made: its times lie within a day.
pub open spec fn times_within_day(trigger: AutomationTrigger) -> bool {
    match trigger {
        AutomationTrigger::FixedTime { minute_of_day, .. } => minute_of_day < 1_440,
        AutomationTrigger::Solar { offset_minutes, .. } => offset_allowed(offset_minutes),
        AutomationTrigger::LightLevel { on_below, off_above, active_window } => {
            &&& thresholds_allowed(on_below, off_above)
            &&& active_window is Some ==> edge_within_day(active_window->0.start)
                && edge_within_day(active_window->0.end)
        },
    }
}

/// Whether an edge of a window lies within a day.
pub open spec fn edge_within_day(edge: TimeBoundary) -> bool {
    match edge {
        TimeBoundary::Fixed { minute_of_day } => minute_of_day < 1_440,
        TimeBoundary::Solar { offset_minutes, .. } => offset_allowed(offset_minutes),
    }
}

/// Every rule that a form makes has its times within a day and its thresholds in order, so
/// that the calendar can show it.
pub proof fn law_forms_make_sound_rules(
    fixed: ScheduleForm,
    solar: SolarAutomationForm,
    light: LightAutomationForm,
    device_id: String,
    made: NewAutomation,
)
    requires
        (fixed_refusal(fixed) is None && is_fixed_rule(made, fixed, device_id)) || (solar_refusal(
            solar,
        ) is None && is_solar_rule(made, solar, device_id)) || (light_refusal(light) is None
            && is_light_rule(made, light, device_id)),
    ensures
        times_within_day(made.trigger),
        0 < made.name@.len() <= MAX_NAME_LENGTH,
{
}

/// A form for a countdown.
#[derive(Debug)]
pub struct CountdownForm {
    pub minutes: u64,
    pub action: String,
}

/// A countdown that was entered.
#[derive(Debug, Clone, Copy, PartialEq, Eq, Structural)]
pub struct CountdownInput {
    pub delay_seconds: u64,
    pub turn_on: bool,
}

/// A countdown out of what was entered, or why there is none.
pub open spec fn countdown(form: CountdownForm) -> Result<CountdownInput, Seq<char>> {
    if !(1 <= form.minutes <= 1_440) {
        Err("timer duration must be between 1 minute and 24 hours"@)
    } else if form.action@ == "on"@ {
        Ok(CountdownInput { delay_seconds: (form.minutes * 60) as u64, turn_on: true })
    } else if form.action@ == "off"@ {
        Ok(CountdownInput { delay_seconds: (form.minutes * 60) as u64, turn_on: false })
    } else {
        Err("timer action must be on or off"@)
    }
}

impl CountdownInput {
    /// A countdown out of what was entered.
    pub fn from_form(form: CountdownForm) -> (result: Result<CountdownInput, AppError>)
        ensures
            match countdown(form) {
                Ok(input) => result is Ok && result->Ok_0 == input,
                Err(message) => result is Err && refuses(result->Err_0, message),
            },
    {
        if form.minutes < 1 || form.minutes > 1_440 {
            return Err(
                AppError::bad_request("timer duration must be between 1 minute and 24 hours"),
            );
        }
        let turn_on = if same_text(form.action.as_str(), "on") {
            true
        } else if same_text(form.action.as_str(), "off") {
            false
        } else {
            return Err(AppError::bad_request("timer action must be on or off"));
        };
        Ok(CountdownInput { delay_seconds: form.minutes * 60, turn_on })
    }

    /// The rule that a plug is given for this countdown.
    pub fn rule(&self) -> (rule: CountdownRule)
        ensures
            rule.id is None,
            rule.name@ == "Web timer"@,
            rule.enabled,
            rule.delay == self.delay_seconds,
            rule.turn_on == self.turn_on,
            rule.extra@.len() == 0,
    {
        let extra: Vec<Member> = Vec::new();
        CountdownRule {
            id: None,
            name: "Web timer".to_owned(),
            enabled: true,
            delay: self.delay_seconds,
            turn_on: self.turn_on,
            extra,
        }
    }
}

/// A field of a form.
#[derive(Debug)]
pub struct FormField {
    pub name: String,
    pub value: String,
}

/// The values of the fields among the first `count` that name a device.
pub open spec fn device_values(fields: Seq<FormField>, count: int) -> Seq<Seq<char>>
    decreases count,
{
    if count <= 0 {
        seq![]
    } else if crate::text::begins(fields[count - 1].name@, "device_"@) {
        device_values(fields, count - 1).push(fields[count - 1].value@)
    } else {
        device_values(fields, count - 1)
    }
}

/// Whether no text precedes one before it.
pub open spec fn in_text_order(parts: Seq<Seq<char>>) -> bool {
    forall|i: int, j: int|
        0 <= i < j < parts.len() ==> !crate::text::text_before(
            #[trigger] parts[j],
            #[trigger] parts[i],
        )
}

fn insert_in_order(parts: &mut Vec<String>, part: String)
    requires
        in_text_order(crate::text::texts(old(parts)@)),
    ensures
        in_text_order(crate::text::texts(final(parts)@)),
        crate::text::texts(final(parts)@).to_multiset() == crate::text::texts(
            old(parts)@,
        ).to_multiset().insert(part@),
{
    let ghost before = crate::text::texts(parts@);
    let mut index: usize = parts.len();
    while index > 0 && precedes(part.as_str(), parts[index - 1].as_str())
        invariant
            index <= parts@.len(),
            before == crate::text::texts(parts@),
            parts@ == old(parts)@,
            forall|i: int|
                index <= i < before.len() ==> crate::text::text_before(part@, #[trigger] before[i]),
        decreases index,
    {
        proof {
            assert(before[index - 1] == parts@[index - 1]@);
        }
        index = index - 1;
    }
    let ghost value = part@;
    parts.insert(index, part);
    proof {
        let after = crate::text::texts(parts@);
        assert(after =~= before.insert(index as int, value));
        if index > 0 {
            assert(!crate::text::text_before(value, before[index - 1]));
        }
        assert forall|i: int| 0 <= i < index implies !crate::text::text_before(
            value,
            #[trigger] before[i],
        ) by {
            if i < index - 1 {
                assert(!crate::text::text_before(before[index - 1], before[i]));
                if crate::text::text_before(value, before[i]) {
                    crate::text::lemma_text_order_total(before[index - 1], before[i]);
                    if before[index - 1] != before[i] {
                        crate::text::lemma_text_order_transitive(value, before[i], before[index - 1]);
                    }
                }
            }
        }
        assert forall|i: int, j: int| 0 <= i < j < after.len() implies !crate::text::text_before(
            #[trigger] after[j],
            #[trigger] after[i],
        ) by {
            if j < index {
                assert(after[i] == before[i] && after[j] == before[j]);
            } else if j == index {
                assert(after[i] == before[i]);
            } else if i < index {
                assert(after[i] == before[i] && after[j] == before[j - 1]);
            } else if i == index {
                assert(after[j] == before[j - 1]);
                crate::text::lemma_text_order_asymmetric(value, before[j - 1]);
            } else {
                assert(after[i] == before[i - 1] && after[j] == before[j - 1]);
            }
        }
        vstd::seq_lib::to_multiset_insert(before, index as int, value);
    }
}

/// The members of a group out of the fields of a form: the values of the fields that name a
/// device, in order.
pub fn group_members(fields: Vec<FormField>) -> (members: Vec<String>)
    ensures
        in_text_order(crate::text::texts(members@)),
        crate::text::texts(members@).to_multiset() == device_values(
            fields@,
            fields@.len() as int,
        ).to_multiset(),
{
    let mut members: Vec<String> = Vec::new();
    let mut left = fields;
    let ghost all = left@;
    let ghost mut count: int = 0;
    proof {
        assert(crate::text::texts(members@) =~= device_values(all, 0));
    }
    while left.len() > 0
        invariant
            all == fields@,
            0 <= count <= all.len(),
            left@ == all.skip(count),
            in_text_order(crate::text::texts(members@)),
            crate::text::texts(members@).to_multiset() == device_values(all, count).to_multiset(),
        decreases left@.len(),
    {
        let field = left.remove(0);
        proof {
            assert(field == all[count]);
            device_values(all, count).to_multiset_ensures();
        }
        if starts_with(field.name.as_str(), "device_") {
            insert_in_order(&mut members, field.value);
        }
        proof {
            count = count + 1;
        }
    }
    members
}

/// Whether a text is among others.
pub fn contains_text(parts: &Vec<String>, text: &str) -> (result: bool)
    ensures
        result == crate::text::texts(parts@).contains(text@),
{
    let mut index: usize = 0;
    while index < parts.len()
        invariant
            index <= parts@.len(),
            forall|i: int| 0 <= i < index ==> (#[trigger] crate::text::texts(parts@)[i]) != text@,
        decreases parts@.len() - index,
    {
        proof {
            assert(crate::text::texts(parts@)[index as int] == parts@[index as int]@);
        }
        if same_text(parts[index].as_str(), text) {
            return true;
        }
        index = index + 1;
    }
    false
}

/// Refuses members that are not allowed; the first of them is named.
pub fn validate_group_members(device_ids: &Vec<String>, allowed: &Vec<String>) -> (result: Result<
    (),
    AppError,
>)
    ensures
        match result {
            Ok(_) => forall|i: int|
                0 <= i < device_ids@.len() ==> crate::text::texts(allowed@).contains(
                    (#[trigger] device_ids@[i])@,
                ),
            Err(error) => exists|i: int|
                0 <= i < device_ids@.len() && !crate::text::texts(allowed@).contains(
                    (#[trigger] device_ids@[i])@,
                ) && (forall|j: int|
                    0 <= j < i ==> crate::text::texts(allowed@).contains(
                        (#[trigger] device_ids@[j])@,
                    )) && refuses(
                    error,
                    "device "@ + device_ids@[i]@ + " is not available for this group"@,
                ),
        },
{
    let mut index: usize = 0;
    while index < device_ids.len()
        invariant
            index <= device_ids@.len(),
            forall|i: int|
                0 <= i < index ==> crate::text::texts(allowed@).contains(
                    (#[trigger] device_ids@[i])@,
                ),
        decreases device_ids@.len() - index,
    {
        if !contains_text(allowed, device_ids[index].as_str()) {
            let mut message = "device ".to_owned();
            message.append(device_ids[index].as_str());
            message.append(" is not available for this group");
            return Err(AppError::bad_request(message.as_str()));
        }
        index = index + 1;
    }
    Ok(())
}

/// The parts of a text between commas.
pub open spec fn comma_parts(text: Seq<char>) -> Seq<Seq<char>>
    decreases text.len(),
{
    if text.len() == 0 {
        seq![seq![]]
    } else {
        let front = comma_parts(text.drop_last());
        if text.last() == ',' {
            front.push(seq![])
        } else {
            front.update(front.len() - 1, front.last().push(text.last()))
        }
    }
}

/// The parts among the first `count` that are not blank, without the space around them.
pub open spec fn listed_parts(parts: Seq<Seq<char>>, count: int) -> Seq<Seq<char>>
    decreases count,
{
    if count <= 0 {
        seq![]
    } else {
        let front = listed_parts(parts, count - 1);
        let part = crate::text::trimmed(parts[count - 1]);
        if part.len() > 0 {
            front.push(part)
        } else {
            front
        }
    }
}

fn split_commas(text: &str) -> (parts: Vec<Vec<char>>)
    ensures
        parts@.map_values(|part: Vec<char>| part@) == comma_parts(text@),
        parts@.len() > 0,
{
    let letters = characters(text);
    let mut parts: Vec<Vec<char>> = Vec::new();
    let mut current: Vec<char> = Vec::new();
    let mut index: usize = 0;
    let ghost view = |part: Vec<char>| part@;
    proof {
        assert(parts@.map_values(view).push(current@) =~= comma_parts(text@.take(0)));
    }
    while index < letters.len()
        invariant
            index <= letters@.len(),
            letters@ == text@,
            view == (|part: Vec<char>| part@),
            parts@.map_values(view).push(current@) == comma_parts(text@.take(index as int)),
        decreases letters@.len() - index,
    {
        let letter = letters[index];
        let ghost before = parts@.map_values(view).push(current@);
        proof {
            assert(text@.take(index + 1).drop_last() =~= text@.take(index as int));
            assert(text@.take(index + 1).last() == letter);
            assert(before.last() == current@);
        }
        if letter == ',' {
            let ghost done = parts@;
            let finished = current;
            parts.push(finished);
            current = Vec::new();
            proof {
                assert(parts@.map_values(view) =~= done.map_values(view).push(finished@));
                assert(parts@.map_values(view).push(current@) =~= before.push(seq![]));
            }
        } else {
            current.push(letter);
            proof {
                assert(parts@.map_values(view).push(current@) =~= before.update(
                    before.len() - 1,
                    before.last().push(letter),
                ));
            }
        }
        index = index + 1;
    }
    let ghost done = parts@;
    parts.push(current);
    proof {
        assert(parts@.map_values(view) =~= done.map_values(view).push(current@));
        assert(text@.take(index as int) =~= text@);
    }
    parts
}

/// The parts of a list with commas that are not blank, without the space around them.
pub fn comma_list(text: &str) -> (parts: Vec<String>)
    ensures
        crate::text::texts(parts@) == listed_parts(
            comma_parts(text@),
            comma_parts(text@).len() as int,
        ),
{
    let pieces = split_commas(text);
    let ghost all = pieces@.map_values(|part: Vec<char>| part@);
    let mut parts: Vec<String> = Vec::new();
    let mut index: usize = 0;
    proof {
        assert(crate::text::texts(parts@) =~= seq![]);
    }
    while index < pieces.len()
        invariant
            index <= pieces@.len(),
            all == pieces@.map_values(|part: Vec<char>| part@),
            crate::text::texts(parts@) == listed_parts(all, index as int),
        decreases pieces@.len() - index,
    {
        let piece = text_of(pieces[index].as_slice());
        proof {
            assert(all[index as int] == pieces@[index as int]@);
        }
        let part = trim(piece.as_str());
        if part.unicode_len() > 0 {
            let ghost before = parts@;
            let owned = part.to_owned();
            parts.push(owned);
            proof {
                assert(crate::text::texts(parts@) =~= crate::text::texts(before).push(owned@));
            }
        }
        index = index + 1;
    }
    parts
}

proof fn lemma_joined_grows(parts: Seq<Seq<char>>, letter: char)
    requires
        parts.len() > 0,
    ensures
        crate::text::joined(
            parts.update(parts.len() - 1, parts.last().push(letter)),
            ","@,
        ) == crate::text::joined(parts, ","@).push(letter),
{
    let grown = parts.update(parts.len() - 1, parts.last().push(letter));
    assert(grown.drop_last() =~= parts.drop_last());
    if parts.len() > 1 {
        assert(crate::text::joined(grown, ","@) =~= crate::text::joined(parts, ","@).push(letter));
    }
}

/// A list is cut at its commas and nowhere else: joined by commas its parts are the list again, and
/// no part holds one.
pub proof fn law_lists_are_cut_at_commas(text: Seq<char>)
    ensures
        comma_parts(text).len() > 0,
        crate::text::joined(comma_parts(text), ","@) == text,
        forall|i: int, j: int|
            0 <= i < comma_parts(text).len() && 0 <= j < comma_parts(text)[i].len()
                ==> #[trigger] comma_parts(text)[i][j] != ',',
    decreases text.len(),
{
    reveal_strlit(",");
    assert(","@ =~= seq![',']);
    if text.len() == 0 {
        assert(text =~= seq![]);
    } else {
        let rest = text.drop_last();
        let front = comma_parts(rest);
        let parts = comma_parts(text);
        law_lists_are_cut_at_commas(rest);
        if text.last() == ',' {
            assert(parts.drop_last() =~= front);
            assert(crate::text::joined(parts, ","@) =~= rest.push(','));
            assert forall|i: int, j: int|
                0 <= i < parts.len() && 0 <= j < parts[i].len() implies #[trigger] parts[i][j]
                != ',' by {
                assert(i < front.len());
                assert(parts[i] == front[i]);
                assert(front[i][j] != ',');
            }
        } else {
            lemma_joined_grows(front, text.last());
            assert forall|i: int, j: int|
                0 <= i < parts.len() && 0 <= j < parts[i].len() implies #[trigger] parts[i][j]
                != ',' by {
                if i < front.len() - 1 {
                    assert(parts[i] == front[i]);
                    assert(front[i][j] != ',');
                } else if j < front[i].len() {
                    assert(front[i][j] != ',');
                    assert(parts[i][j] == front[i][j]);
                } else {
                    assert(parts[i][j] == text.last());
                }
            }
        }
        assert(rest.push(text.last()) =~= text);
    }
}

/// A list holds exactly the parts that are not blank, without the space around them.
pub proof fn law_blank_parts_are_left_out(parts: Seq<Seq<char>>, count: int, text: Seq<char>)
    requires
        0 <= count <= parts.len(),
    ensures
        listed_parts(parts, count).contains(text) <==> text.len() > 0 && exists|i: int|
            0 <= i < count && crate::text::trimmed(#[trigger] parts[i]) == text,
    decreases count,
{
    if count > 0 {
        law_blank_parts_are_left_out(parts, count - 1, text);
        let front = listed_parts(parts, count - 1);
        let all = listed_parts(parts, count);
        let part = crate::text::trimmed(parts[count - 1]);
        if part.len() > 0 {
            assert(all == front.push(part));
            assert(all[front.len() as int] == part);
            if front.contains(text) {
                let i = choose|i: int| 0 <= i < front.len() && front[i] == text;
                assert(all[i] == text);
            }
            if all.contains(text) && text != part {
                let i = choose|i: int| 0 <= i < all.len() && all[i] == text;
                assert(front[i] == text);
            }
        }
    }
}

/// The members that a form names are the values of exactly those fields whose names begin as those
/// of devices do.
pub proof fn law_device_fields_name_members(fields: Seq<FormField>, count: int, value: Seq<char>)
    requires
        0 <= count <= fields.len(),
    ensures
        device_values(fields, count).contains(value) <==> exists|i: int|
            0 <= i < count && (#[trigger] fields[i]).value@ == value && fields[i].name@.len() >= 7
                && fields[i].name@.take(7) == "device_"@,
    decreases count,
{
    reveal_strlit("device_");
    assert("device_"@.len() == 7);
    if count > 0 {
        law_device_fields_name_members(fields, count - 1, value);
        let front = device_values(fields, count - 1);
        let all = device_values(fields, count);
        let field = fields[count - 1];
        if crate::text::begins(field.name@, "device_"@) {
            assert(all == front.push(field.value@));
            assert(all[front.len() as int] == field.value@);
            if front.contains(value) {
                let i = choose|i: int| 0 <= i < front.len() && front[i] == value;
                assert(all[i] == value);
            }
            if all.contains(value) && value != field.value@ {
                let i = choose|i: int| 0 <= i < all.len() && all[i] == value;
                assert(front[i] == value);
            }
        }
    }
}

} // verus!
