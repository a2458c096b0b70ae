//! What rules, forms and forecasts are for, said of inputs and results alone.
use crate::automation::{
    ActiveWindow, AutomationRule, AutomationTrigger, NewAutomation, OutsideWindowBehavior,
    SolarEvent, TimeBoundary,
};
use crate::forms::{
    AppError, CountdownForm, CountdownInput, LightAutomationForm, ScheduleForm, SolarAutomationForm,
    WeekdayFields,
};
use crate::quantity::Quantity;
use crate::rules::{CountdownRule, ScheduleRule, ScheduleView};
use crate::views::AutomationView;
use crate::weather::{WeatherResponse, WeatherSnapshot, WeatherStatus};
use vstd::prelude::*;

verus! {

/// A rule by the sun acts exactly in the twenty minutes from sunrise, or from sunset, moved by its
/// offset, on its local weekdays, and once on a local day. It asks for its own state.
pub proof fn law_solar_rules_follow_the_sun(
    rule: AutomationRule,
    weather: WeatherSnapshot,
    event: SolarEvent,
    offset: i16,
    weekdays: [bool; 7],
)
    requires
        rule.trigger == (AutomationTrigger::Solar { event, offset_minutes: offset, weekdays }),
    ensures
        ({
            let result = crate::automation::evaluation(rule, weather);
            let day = (weather.time + weather.utc_offset_seconds) / 86_400;
            let free = weekdays[(day + 4) % 7] && rule.last_solar_day != Some(day as i64);
            &&& event == SolarEvent::Sunrise ==> (result is Some <==> free && weather.sunrise + 60
                * offset <= weather.time < weather.sunrise + 60 * offset + 1_200)
            &&& event == SolarEvent::Sunset ==> (result is Some <==> free && weather.sunset + 60
                * offset <= weather.time < weather.sunset + 60 * offset + 1_200)
            &&& result is Some ==> result->0.turn_on == rule.turn_on && result->0.trigger_day
                == Some(day as i64)
        }),
{
}

/// A rule at a fixed time acts exactly in the twenty minutes from its minute of the local day, on
/// its local weekdays, and once on a local day. It asks for its own state.
pub proof fn law_fixed_rules_follow_the_clock(
    rule: AutomationRule,
    weather: WeatherSnapshot,
    minute: u16,
    weekdays: [bool; 7],
)
    requires
        rule.trigger == (AutomationTrigger::FixedTime { minute_of_day: minute, weekdays }),
    ensures
        ({
            let result = crate::automation::evaluation(rule, weather);
            let day = (weather.time + weather.utc_offset_seconds) / 86_400;
            let second = (weather.time + weather.utc_offset_seconds) % 86_400;
            &&& result is Some <==> minute * 60 <= second < minute * 60 + 1_200 && weekdays[(day + 4)
                % 7] && rule.last_solar_day != Some(day as i64)
            &&& result is Some ==> result->0.turn_on == rule.turn_on && result->0.trigger_day
                == Some(day as i64)
        }),
{
}

/// Quantities compare as the numbers that their bits stand for: from zero on the bits grow with
/// the number, below zero they grow as it falls, what is below zero is below what is not, and the
/// two zeros are equal. What is no number compares with nothing.
pub proof fn law_quantities_compare_as_numbers(left: Quantity, right: Quantity)
    ensures
        ({
            let least = crate::quantity::at_most(left, right);
            let below = crate::quantity::less(left, right);
            let sign = 0x8000_0000_0000_0000u64;
            let infinite = 0x7ff0_0000_0000_0000u64;
            let left_below = sign < left.bits <= sign + infinite;
            let right_below = sign < right.bits <= sign + infinite;
            let left_above = left.bits <= infinite || left.bits == sign;
            let right_above = right.bits <= infinite || right.bits == sign;
            let left_bits = if left.bits == sign {
                0
            } else {
                left.bits
            };
            let right_bits = if right.bits == sign {
                0
            } else {
                right.bits
            };
            &&& left_above && right_above ==> (least <==> left_bits <= right_bits) && (below
                <==> left_bits < right_bits)
            &&& left_below && right_below ==> (least <==> right.bits <= left.bits) && (below
                <==> right.bits < left.bits)
            &&& left_below && right_above ==> least && below
            &&& left_above && right_below ==> !least && !below
            &&& !(left_below || left_above) || !(right_below || right_above) ==> !least && !below
            &&& crate::quantity::is_finite(left) <==> left.bits < infinite || sign <= left.bits
                < sign + infinite
        }),
{
}

/// The second of a day on which an edge of a window falls, by the sun of a forecast.
pub open spec fn second_of_edge(edge: TimeBoundary, weather: WeatherSnapshot, second: int) -> bool {
    match edge {
        TimeBoundary::Fixed { minute_of_day } => second == minute_of_day * 60,
        TimeBoundary::Solar { event, offset_minutes } => 0 <= second < 86_400 && exists|days: int|
            second + #[trigger] (days * 86_400) == (match event {
                SolarEvent::Sunrise => weather.sunrise,
                SolarEvent::Sunset => weather.sunset,
            }) + weather.utc_offset_seconds + offset_minutes * 60,
    }
}

/// A light rule without a window asks for on exactly where there is no more light than its lower
/// threshold, for off exactly where there is more than that and no less than its higher one, and
/// for nothing in between. It leaves no day to remember.
pub proof fn law_light_rules_follow_the_light(
    rule: AutomationRule,
    weather: WeatherSnapshot,
    on_below: Quantity,
    off_above: Quantity,
)
    requires
        rule.trigger == (AutomationTrigger::LightLevel { on_below, off_above, active_window: None }),
        weather.shortwave_radiation.bits <= 0x7ff0_0000_0000_0000,
        on_below.bits <= 0x7ff0_0000_0000_0000,
        off_above.bits <= 0x7ff0_0000_0000_0000,
    ensures
        ({
            let result = crate::automation::evaluation(rule, weather);
            let light = weather.shortwave_radiation.bits;
            &&& light <= on_below.bits <==> result is Some && result->0.turn_on
            &&& on_below.bits < light && off_above.bits <= light <==> result is Some
                && !result->0.turn_on
            &&& result is Some ==> result->0.trigger_day is None
        }),
{
    law_quantities_compare_as_numbers(weather.shortwave_radiation, on_below);
    law_quantities_compare_as_numbers(off_above, weather.shortwave_radiation);
}

/// A light rule with a window does inside it what it does without one. Outside, it turns the plug
/// off or leaves it alone, as the window says. A window runs from its start to its end, over
/// midnight where it ends before it starts, and all day where it ends where it starts.
pub proof fn law_windows_bound_light_rules(
    rule: AutomationRule,
    unbound: AutomationRule,
    weather: WeatherSnapshot,
    window: ActiveWindow,
    start: int,
    end: int,
)
    requires
        rule.trigger matches AutomationTrigger::LightLevel { on_below, off_above, active_window }
            && active_window == Some(window) && unbound.trigger == (AutomationTrigger::LightLevel {
            on_below,
            off_above,
            active_window: None,
        }),
        second_of_edge(window.start, weather, start),
        second_of_edge(window.end, weather, end),
    ensures
        ({
            let result = crate::automation::evaluation(rule, weather);
            let second = (weather.time + weather.utc_offset_seconds) % 86_400;
            let inside = start == end || (start < end && start <= second && second < end) || (start
                > end && (start <= second || second < end));
            &&& inside ==> result == crate::automation::evaluation(unbound, weather)
            &&& !inside && window.outside == OutsideWindowBehavior::TurnOff ==> result is Some
                && !result->0.turn_on && result->0.trigger_day is None
            &&& !inside && window.outside == OutsideWindowBehavior::StopControlling ==> result
                is None
        }),
{
    lemma_edge(window.start, weather, start);
    lemma_edge(window.end, weather, end);
}

proof fn lemma_edge(edge: TimeBoundary, weather: WeatherSnapshot, second: int)
    requires
        second_of_edge(edge, weather, second),
    ensures
        crate::automation::boundary_second(edge, weather) == second,
{
    match edge {
        TimeBoundary::Fixed { .. } => {},
        TimeBoundary::Solar { event, offset_minutes } => {
            let total = (match event {
                SolarEvent::Sunrise => weather.sunrise,
                SolarEvent::Sunset => weather.sunset,
            }) + weather.utc_offset_seconds + offset_minutes * 60;
            let days = choose|days: int| second + #[trigger] (days * 86_400) == total;
            assert(total % 86_400 == second);
        },
    }
}

/// A schedule of a plug is taken over exactly where it has an identity, is repeated, has no end of
/// its own, switches on or off, and starts at a minute of the day, at sunrise or at sunset. What
/// takes it over acts then, on the same weekdays, on where the schedule's action number is one and
/// off where it is zero, and is enabled where schedules are and this one is.
pub proof fn law_migrated_schedules_do_the_same(
    rule: ScheduleRule,
    schedules_enabled: bool,
    device_id: Seq<char>,
    automation: Option<NewAutomation>,
)
    requires
        match automation {
            Some(automation) => (crate::rules::plain_fixed(rule) || crate::rules::plain_solar(rule))
                && crate::rules::takes_over(automation, rule, schedules_enabled, device_id),
            None => !crate::rules::plain_fixed(rule) && !crate::rules::plain_solar(rule),
        },
    ensures
        automation is Some <==> {
            &&& rule.id is Some && rule.id->0@.len() > 0
            &&& rule.repeat
            &&& rule.etime_opt == -1
            &&& rule.sact == 0 || rule.sact == 1
            &&& (rule.stime_opt == 0 && rule.smin < 1_440) || rule.stime_opt == 1 || rule.stime_opt
                == 2
        },
        automation matches Some(made) ==> {
            &&& made.device_id@ == device_id
            &&& crate::text::trimmed(rule.name@).len() > 0 ==> made.name@ == rule.name@
            &&& crate::text::trimmed(rule.name@).len() == 0 ==> made.name@ == "Migrated schedule"@
            &&& made.enabled <==> schedules_enabled && rule.enabled
            &&& rule.sact == 1 ==> made.turn_on
            &&& rule.sact == 0 ==> !made.turn_on
            &&& rule.stime_opt == 0 ==> (made.trigger matches AutomationTrigger::FixedTime {
                minute_of_day,
                weekdays,
            } && minute_of_day == rule.smin && weekdays == rule.weekdays)
            &&& rule.stime_opt != 0 ==> (made.trigger matches AutomationTrigger::Solar {
                event,
                offset_minutes,
                weekdays,
            } && weekdays == rule.weekdays && (rule.stime_opt == 1 ==> event == SolarEvent::Sunrise)
                && (rule.stime_opt == 2 ==> event == SolarEvent::Sunset) && (rule.soffset is Some
                ==> offset_minutes == rule.soffset->0) && (rule.soffset is None ==> offset_minutes
                == 0))
        },
{
}

/// What a page says that a schedule of a plug does is what the rule that takes it over does.
pub proof fn law_schedules_are_shown_as_they_migrate(
    rule: ScheduleRule,
    view: ScheduleView,
    schedules_enabled: bool,
    device_id: Seq<char>,
    made: NewAutomation,
)
    requires
        crate::rules::shows_schedule(view, rule),
        crate::rules::plain_fixed(rule) || crate::rules::plain_solar(rule),
        crate::rules::takes_over(made, rule, schedules_enabled, device_id),
    ensures
        view.migratable,
        made.turn_on ==> view.action@ == "Turn on"@,
        !made.turn_on ==> view.action@ == "Turn off"@,
        made.enabled ==> view.enabled,
        made.trigger matches AutomationTrigger::FixedTime { minute_of_day, .. } ==> view.time@
            == crate::clock::minute_clock(minute_of_day as nat),
{
}

/// The current day of a forecast is the last that has begun: it begins by the current time, and
/// every later one after it. What a snapshot says of the sun is what the forecast says of that
/// day, and what it says of the weather is what the forecast says of now.
pub proof fn law_snapshots_are_of_the_current_day(
    response: WeatherResponse,
    result: Result<WeatherSnapshot, String>,
    current: int,
)
    requires
        match crate::weather::lacks(response) {
            Some(name) => result is Err && result->Err_0@ == crate::weather::omitted(name),
            None => result is Ok && crate::weather::snapshot_of(result->Ok_0, response),
        },
        0 <= current < response.daily.time@.len(),
        response.daily.time@[current] <= response.current.time,
        forall|i: int|
            current < i < response.daily.time@.len() ==> #[trigger] response.daily.time@[i]
                > response.current.time,
    ensures
        current < response.daily.sunrise@.len() && current < response.daily.sunset@.len()
            <==> result is Ok,
        result matches Ok(snapshot) ==> {
            &&& snapshot.sunrise == response.daily.sunrise@[current]
            &&& snapshot.sunset == response.daily.sunset@[current]
            &&& snapshot.time == response.current.time
            &&& snapshot.shortwave_radiation == response.current.shortwave_radiation
            &&& snapshot.temperature == response.current.temperature_2m
            &&& snapshot.apparent_temperature == response.current.apparent_temperature
            &&& snapshot.precipitation == response.current.precipitation
            &&& snapshot.weather_code == response.current.weather_code
            &&& snapshot.cloud_cover == response.current.cloud_cover
            &&& snapshot.is_day <==> response.current.is_day != 0
            &&& snapshot.utc_offset_seconds == response.utc_offset_seconds
            &&& snapshot.timezone_abbreviation == response.timezone_abbreviation
        },
        current >= response.daily.sunrise@.len() ==> result is Err && result->Err_0@
            == "Open-Meteo response omitted "@ + "sunrise"@,
        current < response.daily.sunrise@.len() && current >= response.daily.sunset@.len()
            ==> result is Err && result->Err_0@ == "Open-Meteo response omitted "@ + "sunset"@,
{
    lemma_current_day(response.daily.time@, response.current.time as int, current);
}

proof fn lemma_current_day(days: Seq<i64>, time: int, current: int)
    requires
        0 <= current < days.len(),
        days[current] <= time,
        forall|i: int| current < i < days.len() ==> #[trigger] days[i] > time,
    ensures
        crate::weather::current_day_index(days, time) == Some(current),
    decreases days.len(),
{
    if current < days.len() - 1 {
        assert(days[days.len() - 1] > time);
        assert forall|i: int| current < i < days.drop_last().len() implies #[trigger] days.drop_last()[i]
            > time by {
            assert(days[i] > time);
        }
        lemma_current_day(days.drop_last(), time, current);
    }
}

/// A forecast without a day that has begun says nothing of now.
pub proof fn law_no_snapshot_before_the_first_day(
    response: WeatherResponse,
    result: Result<WeatherSnapshot, String>,
)
    requires
        match crate::weather::lacks(response) {
            Some(name) => result is Err && result->Err_0@ == crate::weather::omitted(name),
            None => result is Ok && crate::weather::snapshot_of(result->Ok_0, response),
        },
        forall|i: int|
            0 <= i < response.daily.time@.len() ==> #[trigger] response.daily.time@[i]
                > response.current.time,
    ensures
        result is Err,
        result->Err_0@ == "Open-Meteo response omitted "@ + "daily time"@,
{
    lemma_no_day(response.daily.time@, response.current.time as int);
}

proof fn lemma_no_day(days: Seq<i64>, time: int)
    requires
        forall|i: int| 0 <= i < days.len() ==> #[trigger] days[i] > time,
    ensures
        crate::weather::current_day_index(days, time) is None,
    decreases days.len(),
{
    if days.len() > 0 {
        assert(days[days.len() - 1] > time);
        assert forall|i: int| 0 <= i < days.drop_last().len() implies #[trigger] days.drop_last()[i]
            > time by {
            assert(days[i] > time);
        }
        lemma_no_day(days.drop_last(), time);
    }
}

/// The days of a forecast keep their order, and each has the local day of its beginning and the
/// local minutes of its own sunrise and sunset. None is left out that has all three.
pub proof fn law_forecast_days_keep_their_sun(
    response: WeatherResponse,
    snapshot: WeatherSnapshot,
    index: int,
)
    requires
        crate::weather::snapshot_of(snapshot, response),
        0 <= index < response.daily.time@.len(),
        index < response.daily.sunrise@.len(),
        index < response.daily.sunset@.len(),
    ensures
        index < snapshot.solar_days@.len(),
        snapshot.solar_days@.len() <= response.daily.time@.len(),
        ({
            let day = snapshot.solar_days@[index];
            let offset = response.utc_offset_seconds;
            &&& day.day == (response.daily.time@[index] + offset) / 86_400
            &&& day.sunrise_minute == (response.daily.sunrise@[index] + offset) % 86_400 / 60
            &&& day.sunset_minute == (response.daily.sunset@[index] + offset) % 86_400 / 60
        }),
{
}

/// The page of the weather says what the snapshot says, in local time: its clock counts the
/// minutes since local midnight, and its day the local days since the epoch.
pub proof fn law_weather_is_shown_in_local_time(
    snapshot: WeatherSnapshot,
    status: WeatherStatus,
    offset: int,
)
    requires
        offset == snapshot.utc_offset_seconds,
        status.local_time@ == crate::clock::local_clock(snapshot.time as int, offset),
        status.sunrise@ == crate::clock::local_clock(snapshot.sunrise as int, offset),
        status.sunset@ == crate::clock::local_clock(snapshot.sunset as int, offset),
        status.current_minute == crate::clock::seconds_of_day(snapshot.time as int, offset) / 60,
        status.current_day == crate::clock::day_of(snapshot.time as int, offset),
    ensures
        snapshot.time + offset - 60 < status.current_day * 86_400 + status.current_minute * 60
            <= snapshot.time + offset,
        status.current_minute < 1_440,
        reads_clock(status.local_time@, (snapshot.time + offset) % 86_400 / 60),
        reads_clock(status.sunrise@, (snapshot.sunrise + offset) % 86_400 / 60),
        reads_clock(status.sunset@, (snapshot.sunset + offset) % 86_400 / 60),
{
    law_clock_times_read_back((snapshot.time + offset) % 86_400 / 60);
    law_clock_times_read_back((snapshot.sunrise + offset) % 86_400 / 60);
    law_clock_times_read_back((snapshot.sunset + offset) % 86_400 / 60);
}

/// Whether a text is the time of a minute of the day on a clock of twelve hours: the hour without
/// a zero before it, a colon, two digits of the minute, and the half of the day.
pub open spec fn reads_clock(text: Seq<char>, minute: int) -> bool {
    let hour = minute / 60;
    let dial = if hour == 0 || hour == 12 {
        12
    } else if hour > 12 {
        hour - 12
    } else {
        hour
    };
    let tens = ('0' as int + minute % 60 / 10) as char;
    let ones = ('0' as int + minute % 60 % 10) as char;
    let half = if minute < 720 {
        'A'
    } else {
        'P'
    };
    if dial < 10 {
        text == seq![('0' as int + dial) as char, ':', tens, ones, ' ', half, 'M']
    } else {
        text == seq!['1', ('0' as int + dial - 10) as char, ':', tens, ones, ' ', half, 'M']
    }
}

/// The clock time of a minute of the day is the one that a clock of twelve hours shows.
pub proof fn law_clock_times_read_back(minute: int)
    requires
        0 <= minute < 1_440,
    ensures
        reads_clock(crate::clock::minute_clock(minute as nat), minute),
{
    reveal_strlit("AM");
    reveal_strlit("PM");
    reveal_strlit(":");
    reveal_strlit(" ");
    reveal_strlit("0");
    reveal_with_fuel(crate::text::decimal, 3);
    let hour = (minute / 60) as nat;
    let dial = crate::clock::dial_hour(hour);
    assert(crate::text::decimal(dial) =~= if dial < 10 {
        seq![('0' as int + dial) as char]
    } else {
        seq!['1', ('0' as int + dial - 10) as char]
    });
    let rest = (minute % 60) as nat;
    assert(crate::text::two_digits(rest) =~= seq![
        ('0' as int + rest / 10) as char,
        ('0' as int + rest % 10) as char,
    ]);
    let text = crate::clock::minute_clock(minute as nat);
    let tens = ('0' as int + rest / 10) as char;
    let ones = ('0' as int + rest % 10) as char;
    let half = if minute < 720 {
        'A'
    } else {
        'P'
    };
    if dial < 10 {
        assert(text =~= seq![('0' as int + dial) as char, ':', tens, ones, ' ', half, 'M']);
    } else {
        assert(text =~= seq!['1', ('0' as int + dial - 10) as char, ':', tens, ones, ' ', half, 'M']);
    }
}

/// Whether a text is a time of twenty-four hours, in two digits, a colon and two digits, and says
/// that minute of the day.
pub open spec fn reads_time(text: Seq<char>, minute: int) -> bool {
    &&& text.len() == 5
    &&& text[2] == ':'
    &&& '0' <= text[0] <= '9' && '0' <= text[1] <= '9' && '0' <= text[3] <= '9' && '0' <= text[4]
        <= '9'
    &&& 10 * (text[0] as int - '0' as int) + (text[1] as int - '0' as int) < 24
    &&& 10 * (text[3] as int - '0' as int) + (text[4] as int - '0' as int) < 60
    &&& minute == 60 * (10 * (text[0] as int - '0' as int) + (text[1] as int - '0' as int)) + 10 * (
    text[3] as int - '0' as int) + (text[4] as int - '0' as int)
}

/// A time that is entered is read as the minute of the day that it says, and every other text is
/// refused.
pub proof fn law_times_are_read_as_entered(text: Seq<char>, minute: int)
    ensures
        crate::forms::time_of_day(text) == Ok::<int, Seq<char>>(minute) <==> reads_time(text, minute),
{
}

/// Whether weekdays are those whose boxes are ticked, Sunday first.
pub open spec fn ticked(fields: WeekdayFields, weekdays: [bool; 7]) -> bool {
    &&& weekdays[0] <==> fields.sun is Some
    &&& weekdays[1] <==> fields.mon is Some
    &&& weekdays[2] <==> fields.tue is Some
    &&& weekdays[3] <==> fields.wed is Some
    &&& weekdays[4] <==> fields.thu is Some
    &&& weekdays[5] <==> fields.fri is Some
    &&& weekdays[6] <==> fields.sat is Some
}

/// Whether any box of a weekday is ticked.
pub open spec fn any_ticked(fields: WeekdayFields) -> bool {
    fields.sun is Some || fields.mon is Some || fields.tue is Some || fields.wed is Some
        || fields.thu is Some || fields.fri is Some || fields.sat is Some
}

proof fn lemma_ticked(fields: WeekdayFields)
    ensures
        crate::forms::selects_any(fields) <==> any_ticked(fields),
        forall|weekdays: [bool; 7]| #[trigger]
            crate::forms::selected(fields, weekdays) <==> ticked(fields, weekdays),
{
    assert(crate::forms::selects(fields, 0) == fields.sun is Some);
    assert(crate::forms::selects(fields, 1) == fields.mon is Some);
    assert(crate::forms::selects(fields, 2) == fields.tue is Some);
    assert(crate::forms::selects(fields, 3) == fields.wed is Some);
    assert(crate::forms::selects(fields, 4) == fields.thu is Some);
    assert(crate::forms::selects(fields, 5) == fields.fri is Some);
    assert(crate::forms::selects(fields, 6) == fields.sat is Some);
    assert forall|weekdays: [bool; 7]| #[trigger]
        crate::forms::selected(fields, weekdays) <==> ticked(fields, weekdays) by {
        if crate::forms::selected(fields, weekdays) {
            assert(weekdays[0] == crate::forms::selects(fields, 0));
            assert(weekdays[1] == crate::forms::selects(fields, 1));
            assert(weekdays[2] == crate::forms::selects(fields, 2));
            assert(weekdays[3] == crate::forms::selects(fields, 3));
            assert(weekdays[4] == crate::forms::selects(fields, 4));
            assert(weekdays[5] == crate::forms::selects(fields, 5));
            assert(weekdays[6] == crate::forms::selects(fields, 6));
        }
    }
}

/// Whether a name is one that a rule may have once the space around it is gone.
pub open spec fn nameable(name: Seq<char>) -> bool {
    1 <= crate::text::trimmed(name).len() <= 64
}

/// A form for a rule at a fixed time is taken exactly where it has a name, a time of the day, an
/// action and a weekday. The rule acts at that minute, on those weekdays, on where the form says
/// on and off where it says off.
pub proof fn law_fixed_forms_make_what_they_say(
    form: ScheduleForm,
    device_id: String,
    result: Result<NewAutomation, AppError>,
    minute: int,
)
    requires
        match crate::forms::fixed_refusal(form) {
            Some(message) => result is Err && crate::forms::refuses(result->Err_0, message),
            None => result is Ok && crate::forms::is_fixed_rule(result->Ok_0, form, device_id),
        },
    ensures
        result is Ok ==> {
            &&& nameable(form.name@)
            &&& form.action@ == "on"@ || form.action@ == "off"@
            &&& any_ticked(form.weekdays)
            &&& result->Ok_0.trigger matches AutomationTrigger::FixedTime { minute_of_day, weekdays }
                && reads_time(form.time@, minute_of_day as int) && ticked(form.weekdays, weekdays)
            &&& result->Ok_0.name@ == crate::text::trimmed(form.name@)
            &&& result->Ok_0.device_id == device_id
            &&& result->Ok_0.enabled
            &&& form.action@ == "on"@ <==> result->Ok_0.turn_on
        },
        nameable(form.name@) && reads_time(form.time@, minute) && (form.action@ == "on"@
            || form.action@ == "off"@) && any_ticked(form.weekdays) ==> result is Ok,
        result is Err ==> result->Err_0.status == 400,
{
    reveal_strlit("on");
    reveal_strlit("off");
    assert("on"@.len() != "off"@.len());
    lemma_ticked(form.weekdays);
    law_times_are_read_as_entered(form.time@, minute);
    if result is Ok {
        law_times_are_read_as_entered(
            form.time@,
            crate::forms::time_of_day(form.time@)->Ok_0,
        );
    }
}

/// A form for a rule by the sun is taken exactly where it has a name, an offset of at most three
/// hours either way, sunrise or sunset, an action and a weekday. The rule acts then, on those
/// weekdays, on where the form says on and off where it says off.
pub proof fn law_solar_forms_make_what_they_say(
    form: SolarAutomationForm,
    device_id: String,
    result: Result<NewAutomation, AppError>,
)
    requires
        match crate::forms::solar_refusal(form) {
            Some(message) => result is Err && crate::forms::refuses(result->Err_0, message),
            None => result is Ok && crate::forms::is_solar_rule(result->Ok_0, form, device_id),
        },
    ensures
        result is Ok <==> {
            &&& nameable(form.name@)
            &&& -180 <= form.offset_minutes <= 180
            &&& form.event@ == "sunrise"@ || form.event@ == "sunset"@
            &&& form.action@ == "on"@ || form.action@ == "off"@
            &&& any_ticked(form.weekdays)
        },
        result matches Ok(made) ==> {
            &&& made.trigger matches AutomationTrigger::Solar { event, offset_minutes, weekdays }
                && offset_minutes == form.offset_minutes && ticked(form.weekdays, weekdays) && (
            form.event@ == "sunrise"@ ==> event == SolarEvent::Sunrise) && (form.event@ == "sunset"@
                ==> event == SolarEvent::Sunset)
            &&& made.name@ == crate::text::trimmed(form.name@)
            &&& made.device_id == device_id
            &&& made.enabled
            &&& form.action@ == "on"@ <==> made.turn_on
        },
        result is Err ==> result->Err_0.status == 400,
{
    reveal_strlit("on");
    reveal_strlit("off");
    reveal_strlit("sunrise");
    reveal_strlit("sunset");
    assert("on"@.len() != "off"@.len());
    assert("sunrise"@.len() != "sunset"@.len());
    lemma_ticked(form.weekdays);
}

/// Whether an edge of a window is the one that was entered: a time of the day, or sunrise or
/// sunset with an offset of at most three hours either way.
pub open spec fn enters_edge(
    kind: Seq<char>,
    time: Seq<char>,
    offset: i16,
    edge: TimeBoundary,
) -> bool {
    match edge {
        TimeBoundary::Fixed { minute_of_day } => kind == "fixed"@ && reads_time(
            time,
            minute_of_day as int,
        ),
        TimeBoundary::Solar { event, offset_minutes } => {
            &&& offset_minutes == offset
            &&& -180 <= offset <= 180
            &&& event == SolarEvent::Sunrise ==> kind == "sunrise"@
            &&& event == SolarEvent::Sunset ==> kind == "sunset"@
        },
    }
}

/// An edge of a window is made exactly of what was entered for it.
pub proof fn law_edges_are_made_as_entered(
    kind: Seq<char>,
    time: Seq<char>,
    offset: i16,
    edge: TimeBoundary,
)
    ensures
        crate::forms::boundary(kind, time, offset) == Ok::<TimeBoundary, Seq<char>>(edge)
            <==> enters_edge(kind, time, offset, edge),
{
    reveal_strlit("fixed");
    reveal_strlit("sunrise");
    reveal_strlit("sunset");
    assert("fixed"@.len() != "sunrise"@.len());
    assert("fixed"@.len() != "sunset"@.len());
    assert("sunrise"@.len() != "sunset"@.len());
    match edge {
        TimeBoundary::Fixed { minute_of_day } => law_times_are_read_as_entered(
            time,
            minute_of_day as int,
        ),
        TimeBoundary::Solar { .. } => {},
    }
}

/// A light rule out of a form has the thresholds and the window of the form: none where the form
/// has none, and else one between the edges that were entered. Outside it the plug is turned off
/// where the form says so, and left alone where the form says so, and the two differ.
pub proof fn law_light_forms_make_what_they_say(
    form: LightAutomationForm,
    device_id: String,
    result: Result<NewAutomation, AppError>,
)
    requires
        match crate::forms::light_refusal(form) {
            Some(message) => result is Err && crate::forms::refuses(result->Err_0, message),
            None => result is Ok && crate::forms::is_light_rule(result->Ok_0, form, device_id),
        },
    ensures
        result is Err ==> result->Err_0.status == 400,
        result matches Ok(made) ==> {
            &&& nameable(form.name@)
            &&& made.name@ == crate::text::trimmed(form.name@)
            &&& made.device_id == device_id
            &&& made.enabled
            &&& made.turn_on
            &&& made.trigger matches AutomationTrigger::LightLevel {
                on_below,
                off_above,
                active_window,
            } && on_below == form.on_below && off_above == form.off_above && (form.window_enabled
                is None <==> active_window is None) && (active_window matches Some(window) ==> {
                &&& enters_edge(
                    form.start_kind@,
                    form.start_time@,
                    form.start_offset_minutes,
                    window.start,
                )
                &&& enters_edge(
                    form.end_kind@,
                    form.end_time@,
                    form.end_offset_minutes,
                    window.end,
                )
                &&& window.outside == OutsideWindowBehavior::TurnOff <==> form.outside_window@
                    == "turn_off"@
                &&& window.outside == OutsideWindowBehavior::StopControlling
                    <==> form.outside_window@ == "stop_controlling"@
            })
        },
{
    reveal_strlit("turn_off");
    reveal_strlit("stop_controlling");
    assert("turn_off"@.len() != "stop_controlling"@.len());
    if result is Ok && form.window_enabled is Some {
        let window = crate::forms::form_window(form)->Ok_0->0;
        law_edges_are_made_as_entered(
            form.start_kind@,
            form.start_time@,
            form.start_offset_minutes,
            window.start,
        );
        law_edges_are_made_as_entered(
            form.end_kind@,
            form.end_time@,
            form.end_offset_minutes,
            window.end,
        );
    }
}

/// A light rule is refused for its thresholds exactly where they are not numbers from zero to
/// fifteen hundred, the lower below the higher. It is refused for nothing else but a name that it
/// cannot have, and a window whose edges or whose outside cannot be read.
pub proof fn law_light_forms_are_taken(
    form: LightAutomationForm,
    device_id: String,
    result: Result<NewAutomation, AppError>,
    start: TimeBoundary,
    end: TimeBoundary,
)
    requires
        match crate::forms::light_refusal(form) {
            Some(message) => result is Err && crate::forms::refuses(result->Err_0, message),
            None => result is Ok && crate::forms::is_light_rule(result->Ok_0, form, device_id),
        },
        nameable(form.name@),
        form.window_enabled is Some ==> enters_edge(
            form.start_kind@,
            form.start_time@,
            form.start_offset_minutes,
            start,
        ) && enters_edge(form.end_kind@, form.end_time@, form.end_offset_minutes, end) && (
        form.outside_window@ == "turn_off"@ || form.outside_window@ == "stop_controlling"@),
    ensures
        form.on_below.bits < 0x8000_0000_0000_0000 && form.off_above.bits < 0x8000_0000_0000_0000
            ==> (result is Ok <==> form.on_below.bits < form.off_above.bits
            <= 0x4097_7000_0000_0000),
        form.on_below.bits > 0x8000_0000_0000_0000 || form.off_above.bits >= 0x8000_0000_0000_0000
            ==> result is Err,
{
    law_quantities_compare_as_numbers((Quantity { bits: 0 }), form.on_below);
    law_quantities_compare_as_numbers(
        form.off_above,
        (Quantity { bits: 0x4097_7000_0000_0000 }),
    );
    law_quantities_compare_as_numbers(form.on_below, form.off_above);
    if form.window_enabled is Some {
        law_edges_are_made_as_entered(
            form.start_kind@,
            form.start_time@,
            form.start_offset_minutes,
            start,
        );
        law_edges_are_made_as_entered(
            form.end_kind@,
            form.end_time@,
            form.end_offset_minutes,
            end,
        );
    }
}

/// A light rule whose values a page offers for change is made again by a form that sends them back
/// unchanged: the same thresholds, the same window, and the same outside of it.
pub proof fn law_light_rules_survive_their_form(
    rule: AutomationRule,
    view: AutomationView,
    thresholds: crate::calendar::Thresholds,
    form: LightAutomationForm,
    device_id: String,
    result: Result<NewAutomation, AppError>,
)
    requires
        rule.trigger is LightLevel,
        crate::forms::times_within_day(rule.trigger),
        crate::views::shows_rule(view, rule, thresholds),
        match crate::forms::light_refusal(form) {
            Some(message) => result is Err && crate::forms::refuses(result->Err_0, message),
            None => result is Ok && crate::forms::is_light_rule(result->Ok_0, form, device_id),
        },
        nameable(form.name@),
        form.on_below == view.on_below,
        form.off_above == view.off_above,
        form.window_enabled is Some <==> view.window_enabled,
        form.start_kind@ == view.start_kind@,
        form.start_time@ == view.start_time@,
        form.start_offset_minutes == view.start_offset_minutes,
        form.end_kind@ == view.end_kind@,
        form.end_time@ == view.end_time@,
        form.end_offset_minutes == view.end_offset_minutes,
        view.outside_turn_off ==> form.outside_window@ == "turn_off"@,
        !view.outside_turn_off ==> form.outside_window@ == "stop_controlling"@,
    ensures
        result is Ok,
        result->Ok_0.trigger == rule.trigger,
{
    reveal_strlit("turn_off");
    reveal_strlit("stop_controlling");
    assert("turn_off"@.len() != "stop_controlling"@.len());
    match rule.trigger {
        AutomationTrigger::LightLevel { active_window, .. } => match active_window {
            Some(window) => {
                crate::views::law_form_values_read_back(window.start, "09:00"@);
                crate::views::law_form_values_read_back(window.end, "17:00"@);
            },
            None => {},
        },
        _ => {},
    }
}

/// A rule at a fixed time or by the sun whose values a page offers for change is made again by a
/// form that sends them back unchanged.
pub proof fn law_timed_rules_survive_their_form(
    rule: AutomationRule,
    view: AutomationView,
    thresholds: crate::calendar::Thresholds,
    fixed: ScheduleForm,
    solar: SolarAutomationForm,
    device_id: String,
    result: Result<NewAutomation, AppError>,
)
    requires
        crate::forms::times_within_day(rule.trigger),
        crate::views::shows_rule(view, rule, thresholds),
        nameable(fixed.name@) && nameable(solar.name@),
        view.turn_on ==> fixed.action@ == "on"@ && solar.action@ == "on"@,
        !view.turn_on ==> fixed.action@ == "off"@ && solar.action@ == "off"@,
        ticked(fixed.weekdays, view.weekdays) && ticked(solar.weekdays, view.weekdays),
        any_ticked(fixed.weekdays) && any_ticked(solar.weekdays),
        fixed.time@ == view.time@,
        solar.event@ == view.event@,
        solar.offset_minutes == view.offset_minutes,
        match rule.trigger {
            AutomationTrigger::FixedTime { .. } => match crate::forms::fixed_refusal(fixed) {
                Some(message) => result is Err && crate::forms::refuses(result->Err_0, message),
                None => result is Ok && crate::forms::is_fixed_rule(
                    result->Ok_0,
                    fixed,
                    device_id,
                ),
            },
            AutomationTrigger::Solar { .. } => match crate::forms::solar_refusal(solar) {
                Some(message) => result is Err && crate::forms::refuses(result->Err_0, message),
                None => result is Ok && crate::forms::is_solar_rule(
                    result->Ok_0,
                    solar,
                    device_id,
                ),
            },
            AutomationTrigger::LightLevel { .. } => false,
        },
    ensures
        result is Ok,
        result->Ok_0.turn_on == rule.turn_on,
        match (rule.trigger, result->Ok_0.trigger) {
            (
                AutomationTrigger::FixedTime { minute_of_day, weekdays },
                AutomationTrigger::FixedTime { minute_of_day: minute, weekdays: days },
            ) => minute == minute_of_day && days =~= weekdays,
            (
                AutomationTrigger::Solar { event, offset_minutes, weekdays },
                AutomationTrigger::Solar { event: made, offset_minutes: offset, weekdays: days },
            ) => made == event && offset == offset_minutes && days =~= weekdays,
            _ => false,
        },
{
    reveal_strlit("on");
    reveal_strlit("off");
    reveal_strlit("sunrise");
    reveal_strlit("sunset");
    reveal_strlit("fixed");
    assert("on"@.len() != "off"@.len());
    assert("sunrise"@.len() != "sunset"@.len());
    assert("fixed"@.len() != "sunrise"@.len());
    assert("fixed"@.len() != "sunset"@.len());
    lemma_ticked(fixed.weekdays);
    lemma_ticked(solar.weekdays);
    match rule.trigger {
        AutomationTrigger::FixedTime { minute_of_day, .. } => {
            let edge = TimeBoundary::Fixed { minute_of_day };
            crate::views::law_form_values_read_back(edge, "09:00"@);
        },
        AutomationTrigger::Solar { event, offset_minutes, .. } => {
            let edge = TimeBoundary::Solar { event, offset_minutes };
            crate::views::law_form_values_read_back(edge, "09:00"@);
        },
        _ => {},
    }
}

/// A countdown that is entered lasts as many minutes as the form says, from one to a day, and
/// turns the plug on where the form says on and off where it says off.
pub proof fn law_countdowns_last_as_entered(
    form: CountdownForm,
    result: Result<CountdownInput, AppError>,
    rule: CountdownRule,
)
    requires
        match crate::forms::countdown(form) {
            Ok(input) => result is Ok && result->Ok_0 == input,
            Err(message) => result is Err && crate::forms::refuses(result->Err_0, message),
        },
        result is Ok ==> rule.delay == result->Ok_0.delay_seconds && rule.turn_on
            == result->Ok_0.turn_on,
    ensures
        result is Ok <==> 1 <= form.minutes <= 1_440 && (form.action@ == "on"@ || form.action@
            == "off"@),
        result is Ok ==> rule.delay == form.minutes * 60,
        result is Ok ==> (rule.turn_on <==> form.action@ == "on"@),
{
    reveal_strlit("on");
    reveal_strlit("off");
    assert("on"@.len() != "off"@.len());
}

/// Outside its window, a light rule that a form made leaves the plug alone where the form said to
/// stop controlling it, and turns it off where the form said so. Inside, it does the same whatever
/// the form said.
pub proof fn law_outside_is_as_the_form_says(
    form: LightAutomationForm,
    device_id: String,
    result: Result<NewAutomation, AppError>,
    rule: AutomationRule,
    weather: WeatherSnapshot,
    start: int,
    end: int,
)
    requires
        match crate::forms::light_refusal(form) {
            Some(message) => result is Err && crate::forms::refuses(result->Err_0, message),
            None => result is Ok && crate::forms::is_light_rule(result->Ok_0, form, device_id),
        },
        result is Ok,
        form.window_enabled is Some,
        rule.trigger == result->Ok_0.trigger,
        rule.trigger matches AutomationTrigger::LightLevel { active_window: Some(window), .. }
            && second_of_edge(window.start, weather, start) && second_of_edge(
            window.end,
            weather,
            end,
        ),
    ensures
        ({
            let asked = crate::automation::evaluation(rule, weather);
            let second = (weather.time + weather.utc_offset_seconds) % 86_400;
            let outside = start != end && (start < end ==> second < start || end <= second) && (
            end < start ==> end <= second < start);
            &&& outside && form.outside_window@ == "stop_controlling"@ ==> asked is None
            &&& outside && form.outside_window@ == "turn_off"@ ==> asked is Some
                && !asked->0.turn_on
            &&& outside ==> form.outside_window@ == "stop_controlling"@ || form.outside_window@
                == "turn_off"@
        }),
{
    law_light_forms_make_what_they_say(form, device_id, result);
    match rule.trigger {
        AutomationTrigger::LightLevel { on_below, off_above, active_window: Some(window) } => {
            let unbound = AutomationRule {
                trigger: AutomationTrigger::LightLevel { on_below, off_above, active_window: None },
                ..rule
            };
            law_windows_bound_light_rules(rule, unbound, weather, window, start, end);
        },
        _ => {},
    }
}

/// Two forms for a light rule with a window that say different things of its outside make
/// different rules.
pub proof fn law_outsides_differ(
    left: LightAutomationForm,
    right: LightAutomationForm,
    device_id: String,
    first: NewAutomation,
    second: NewAutomation,
)
    requires
        crate::forms::light_refusal(left) is None && crate::forms::light_refusal(right) is None,
        crate::forms::is_light_rule(first, left, device_id),
        crate::forms::is_light_rule(second, right, device_id),
        left.window_enabled is Some && right.window_enabled is Some,
        left.outside_window@ != right.outside_window@,
    ensures
        first.trigger != second.trigger,
{
    law_light_forms_make_what_they_say(left, device_id, Ok(first));
    law_light_forms_make_what_they_say(right, device_id, Ok(second));
}

/// A light rule without a window compares light as numbers are compared, whatever the numbers:
/// the lower threshold counts before the higher one, and what is no number asks for nothing.
pub proof fn law_thresholds_count_in_order(
    rule: AutomationRule,
    weather: WeatherSnapshot,
    on_below: Quantity,
    off_above: Quantity,
)
    requires
        rule.trigger == (AutomationTrigger::LightLevel { on_below, off_above, active_window: None }),
    ensures
        ({
            let result = crate::automation::evaluation(rule, weather);
            let light = weather.shortwave_radiation;
            let dark = crate::quantity::at_most(light, on_below);
            let bright = crate::quantity::at_most(off_above, light);
            &&& result is Some <==> dark || bright
            &&& dark ==> result->0.turn_on
            &&& !dark && bright ==> !result->0.turn_on
        }),
{
}

/// The light that is shown is that of the day before the current one, between its own sunrise and
/// sunset, with averages over all days of the answer up to the current one. There is none on the
/// first day, nor where the day before has no length or no reading.
pub proof fn law_light_of_the_day_before(
    response: WeatherResponse,
    snapshot: WeatherSnapshot,
    current: int,
    reading: int,
)
    requires
        crate::weather::snapshot_of(snapshot, response),
        0 <= current < response.daily.time@.len(),
        response.daily.time@[current] <= response.current.time,
        forall|i: int|
            current < i < response.daily.time@.len() ==> #[trigger] response.daily.time@[i]
                > response.current.time,
    ensures
        ({
            let daily = response.daily;
            &&& current == 0 ==> snapshot.previous_day_light is None
            &&& snapshot.previous_day_light matches Some(plan) ==> {
                &&& current > 0
                &&& plan.day_start == daily.time@[current - 1]
                &&& plan.day_end == daily.time@[current]
                &&& plan.day_start < plan.day_end
                &&& plan.solar_start == daily.sunrise@[current - 1]
                &&& plan.solar_end == daily.sunset@[current - 1]
                &&& plan.average_days == current
                &&& plan.readings@.len() > 0
            }
            &&& current > 0 && daily.time@[current - 1] < daily.time@[current]
                && crate::weather::reads_light(
                response.hourly,
                daily.time@[current - 1] as int,
                daily.time@[current] as int,
                reading,
            ) ==> snapshot.previous_day_light is Some
        }),
{
    lemma_current_day(response.daily.time@, response.current.time as int, current);
    if current > 0 {
        let hourly = response.hourly;
        let start = response.daily.time@[current - 1] as int;
        let end = response.daily.time@[current] as int;
        let count = crate::weather::hour_count(hourly);
        match snapshot.previous_day_light {
            Some(plan) => {
                assert(crate::weather::reading_places(plan.readings@).len() == plan.readings@.len());
            },
            None => {
                crate::weather::lemma_lit_hours(hourly, start, end, count, reading);
            },
        }
    }
}

/// A form for a rule at a fixed time is refused for the first thing that is wrong with it: its
/// name, the shape of its time, the time itself, its action, then its weekdays.
pub proof fn law_fixed_forms_say_what_is_wrong(
    form: ScheduleForm,
    device_id: String,
    result: Result<NewAutomation, AppError>,
    minute: int,
)
    requires
        match crate::forms::fixed_refusal(form) {
            Some(message) => result is Err && crate::forms::refuses(result->Err_0, message),
            None => result is Ok && crate::forms::is_fixed_rule(result->Ok_0, form, device_id),
        },
    ensures
        ({
            let length = crate::text::trimmed(form.name@).len();
            let acts = form.action@ == "on"@ || form.action@ == "off"@;
            &&& length == 0 ==> result is Err && result->Err_0.message@
                == "schedule name cannot be empty"@
            &&& length > 64 ==> result is Err && result->Err_0.message@
                == "schedule name cannot exceed 64 characters"@
            &&& 1 <= length <= 64 && form.time@.len() != 5 ==> result is Err
                && result->Err_0.message@ == "schedule time must use HH:MM format"@
            &&& 1 <= length <= 64 && reads_time(form.time@, minute) && !acts ==> result is Err
                && result->Err_0.message@ == "automation action must be on or off"@
            &&& 1 <= length <= 64 && reads_time(form.time@, minute) && acts && !any_ticked(
                form.weekdays,
            ) ==> result is Err && result->Err_0.message@
                == "select at least one weekday for the schedule"@
        }),
{
    law_times_are_read_as_entered(form.time@, minute);
    lemma_ticked(form.weekdays);
}

/// A form for a rule by the sun is refused for the first thing that is wrong with it: its name, its
/// offset, what the sun does, its action, then its weekdays.
pub proof fn law_solar_forms_say_what_is_wrong(
    form: SolarAutomationForm,
    device_id: String,
    result: Result<NewAutomation, AppError>,
)
    requires
        match crate::forms::solar_refusal(form) {
            Some(message) => result is Err && crate::forms::refuses(result->Err_0, message),
            None => result is Ok && crate::forms::is_solar_rule(result->Ok_0, form, device_id),
        },
    ensures
        ({
            let length = crate::text::trimmed(form.name@).len();
            let acts = form.action@ == "on"@ || form.action@ == "off"@;
            let near = -180 <= form.offset_minutes <= 180;
            let sun = form.event@ == "sunrise"@ || form.event@ == "sunset"@;
            &&& length == 0 ==> result is Err && result->Err_0.message@
                == "schedule name cannot be empty"@
            &&& length > 64 ==> result is Err && result->Err_0.message@
                == "schedule name cannot exceed 64 characters"@
            &&& 1 <= length <= 64 && !near ==> result is Err && result->Err_0.message@
                == "solar offset must be between -180 and 180 minutes"@
            &&& 1 <= length <= 64 && near && !sun ==> result is Err && result->Err_0.message@
                == "solar event must be sunrise or sunset"@
            &&& 1 <= length <= 64 && near && sun && !acts ==> result is Err
                && result->Err_0.message@ == "automation action must be on or off"@
            &&& 1 <= length <= 64 && near && sun && acts && !any_ticked(form.weekdays) ==> result
                is Err && result->Err_0.message@ == "select at least one weekday for the schedule"@
        }),
{
    lemma_ticked(form.weekdays);
}

/// A form for a light rule is refused for its thresholds first, then for its name.
pub proof fn law_light_forms_say_what_is_wrong(
    form: LightAutomationForm,
    device_id: String,
    result: Result<NewAutomation, AppError>,
)
    requires
        match crate::forms::light_refusal(form) {
            Some(message) => result is Err && crate::forms::refuses(result->Err_0, message),
            None => result is Ok && crate::forms::is_light_rule(result->Ok_0, form, device_id),
        },
    ensures
        ({
            let length = crate::text::trimmed(form.name@).len();
            let positive = form.on_below.bits < 0x8000_0000_0000_0000 && form.off_above.bits
                < 0x8000_0000_0000_0000;
            let ordered = form.on_below.bits < form.off_above.bits <= 0x4097_7000_0000_0000;
            &&& positive && !ordered ==> result is Err && result->Err_0.message@
                == "light thresholds must satisfy 0 ≤ on below < off above ≤ 1500 W/m²"@
            &&& positive && ordered && length == 0 ==> result is Err && result->Err_0.message@
                == "schedule name cannot be empty"@
            &&& positive && ordered && length > 64 ==> result is Err && result->Err_0.message@
                == "schedule name cannot exceed 64 characters"@
        }),
{
    law_quantities_compare_as_numbers((Quantity { bits: 0 }), form.on_below);
    law_quantities_compare_as_numbers(
        form.off_above,
        (Quantity { bits: 0x4097_7000_0000_0000 }),
    );
    law_quantities_compare_as_numbers(form.on_below, form.off_above);
}

} // verus!
