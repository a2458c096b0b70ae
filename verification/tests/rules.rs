use smarthome::automation::{
    edited_rule, evaluate_rule, window_contains, ActiveWindow, AutomationRule, AutomationTrigger,
    Coordinate, NewAutomation, OutsideWindowBehavior, RuleEvaluation, SolarEvent, TimeBoundary,
};
use smarthome::clock::{format_clock_time, local_day, local_minute, local_seconds, local_time};
use smarthome::engine::{evaluation_plan, needed_places, Forecast, Switch, TriggeredRule};
use smarthome::plug::{Address, Degrees, SmartPlug};
use smarthome::quantity::Quantity;
use smarthome::weather::{
    light_history, weather_condition, CurrentWeather, DailyWeather, HourlyWeather, SolarForecastDay,
    WeatherResponse, WeatherSnapshot,
};

fn quantity(value: f64) -> Quantity {
    Quantity { bits: value.to_bits() }
}

fn number(value: Quantity) -> f64 {
    f64::from_bits(value.bits)
}

fn every_day() -> [bool; 7] {
    [true; 7]
}

fn weather(time: i64, radiation: f64) -> WeatherSnapshot {
    WeatherSnapshot {
        time,
        sunrise: 2_000,
        sunset: 3_000,
        shortwave_radiation: quantity(radiation),
        utc_offset_seconds: 0,
        timezone_abbreviation: "UTC".to_owned(),
        temperature: quantity(10.0),
        apparent_temperature: quantity(9.0),
        precipitation: quantity(0.0),
        weather_code: 0,
        cloud_cover: 0,
        is_day: true,
        previous_day_light: None,
        solar_days: Vec::new(),
    }
}

fn rule(trigger: AutomationTrigger, turn_on: bool) -> AutomationRule {
    AutomationRule {
        id: 1,
        device_id: "plug".to_owned(),
        name: "Rule".to_owned(),
        enabled: true,
        trigger,
        turn_on,
        last_solar_day: None,
    }
}

#[test]
fn clock_times_use_twelve_hour_format() {
    assert_eq!(format_clock_time(0, 0), "12:00 AM");
    assert_eq!(format_clock_time(11, 5), "11:05 AM");
    assert_eq!(format_clock_time(12, 0), "12:00 PM");
    assert_eq!(format_clock_time(23, 59), "11:59 PM");
}

#[test]
fn solar_rule_fires_once_inside_offset_window() {
    let mut rule = AutomationRule {
        id: 1,
        device_id: "plug".to_owned(),
        name: "Sunset".to_owned(),
        enabled: true,
        trigger: AutomationTrigger::Solar {
            event: SolarEvent::Sunset,
            offset_minutes: -5,
            weekdays: every_day(),
        },
        turn_on: true,
        last_solar_day: None,
    };

    assert_eq!(
        evaluate_rule(&rule, &weather(2_700, 0.0)),
        Some(RuleEvaluation { turn_on: true, trigger_day: Some(0) })
    );
    rule.last_solar_day = Some(0);
    assert_eq!(evaluate_rule(&rule, &weather(2_700, 0.0)), None);
}

#[test]
fn fixed_time_rule_uses_local_weekday_and_fires_once() {
    let mut rule = AutomationRule {
        id: 1,
        device_id: "plug".to_owned(),
        name: "Morning".to_owned(),
        enabled: true,
        trigger: AutomationTrigger::FixedTime {
            minute_of_day: 9 * 60,
            weekdays: [false, false, false, false, true, false, false],
        },
        turn_on: true,
        last_solar_day: None,
    };
    let mut conditions = weather(13 * 3_600, 0.0);
    conditions.utc_offset_seconds = -4 * 3_600;

    assert_eq!(
        evaluate_rule(&rule, &conditions),
        Some(RuleEvaluation { turn_on: true, trigger_day: Some(0) })
    );
    rule.last_solar_day = Some(0);
    assert_eq!(evaluate_rule(&rule, &conditions), None);
}

#[test]
fn light_rule_uses_hysteresis_between_thresholds() {
    let rule = AutomationRule {
        id: 1,
        device_id: "plug".to_owned(),
        name: "Light".to_owned(),
        enabled: true,
        trigger: AutomationTrigger::LightLevel {
            on_below: quantity(75.0),
            off_above: quantity(125.0),
            active_window: None,
        },
        turn_on: false,
        last_solar_day: None,
    };

    assert!(evaluate_rule(&rule, &weather(0, 50.0)).unwrap().turn_on);
    assert_eq!(evaluate_rule(&rule, &weather(0, 100.0)), None);
    assert!(!evaluate_rule(&rule, &weather(0, 150.0)).unwrap().turn_on);
}

#[test]
fn light_rule_only_controls_within_its_fixed_to_solar_window() {
    let rule = AutomationRule {
        id: 1,
        device_id: "plug".to_owned(),
        name: "Light".to_owned(),
        enabled: true,
        trigger: AutomationTrigger::LightLevel {
            on_below: quantity(100.0),
            off_above: quantity(125.0),
            active_window: Some(ActiveWindow {
                start: TimeBoundary::Fixed { minute_of_day: 9 * 60 },
                end: TimeBoundary::Solar { event: SolarEvent::Sunset, offset_minutes: 0 },
                outside: OutsideWindowBehavior::TurnOff,
            }),
        },
        turn_on: true,
        last_solar_day: None,
    };

    let mut conditions = weather(13 * 3_600, 50.0);
    conditions.utc_offset_seconds = -4 * 3_600;
    conditions.sunrise = 10 * 3_600;
    conditions.sunset = 23 * 3_600;
    assert!(evaluate_rule(&rule, &conditions).unwrap().turn_on);

    conditions.time = 23 * 3_600;
    assert!(!evaluate_rule(&rule, &conditions).unwrap().turn_on);

    conditions.time = 12 * 3_600 + 59 * 60;
    assert!(!evaluate_rule(&rule, &conditions).unwrap().turn_on);
}

#[test]
fn outside_window_can_leave_the_plug_unchanged() {
    let rule = AutomationRule {
        id: 1,
        device_id: "plug".to_owned(),
        name: "Light".to_owned(),
        enabled: true,
        trigger: AutomationTrigger::LightLevel {
            on_below: quantity(100.0),
            off_above: quantity(125.0),
            active_window: Some(ActiveWindow {
                start: TimeBoundary::Fixed { minute_of_day: 9 * 60 },
                end: TimeBoundary::Fixed { minute_of_day: 17 * 60 },
                outside: OutsideWindowBehavior::StopControlling,
            }),
        },
        turn_on: true,
        last_solar_day: None,
    };

    assert_eq!(evaluate_rule(&rule, &weather(8 * 3_600, 50.0)), None);
}

#[test]
fn active_window_can_cross_midnight() {
    let window = ActiveWindow {
        start: TimeBoundary::Fixed { minute_of_day: 22 * 60 },
        end: TimeBoundary::Fixed { minute_of_day: 2 * 60 },
        outside: OutsideWindowBehavior::TurnOff,
    };

    assert!(window_contains(window, &weather(23 * 3_600, 0.0)));
    assert!(window_contains(window, &weather(3_600, 0.0)));
    assert!(!window_contains(window, &weather(12 * 3_600, 0.0)));
}

#[test]
fn a_timed_rule_acts_for_twenty_minutes() {
    let fixed = rule(
        AutomationTrigger::FixedTime { minute_of_day: 60, weekdays: every_day() },
        false,
    );
    let acts = |time: i64| evaluate_rule(&fixed, &weather(time, 0.0)).is_some();
    assert!(!acts(3_599));
    assert!(acts(3_600));
    assert!(acts(4_799));
    assert!(!acts(4_800));
    let whole_day = ActiveWindow {
        start: TimeBoundary::Fixed { minute_of_day: 60 },
        end: TimeBoundary::Fixed { minute_of_day: 60 },
        outside: OutsideWindowBehavior::TurnOff,
    };
    assert!(window_contains(whole_day, &weather(0, 0.0)));
}

#[test]
fn what_is_no_number_sets_no_light_rule_off() {
    let light = rule(
        AutomationTrigger::LightLevel {
            on_below: quantity(75.0),
            off_above: quantity(125.0),
            active_window: None,
        },
        true,
    );
    assert_eq!(evaluate_rule(&light, &weather(0, f64::NAN)), None);
    assert!(!evaluate_rule(&light, &weather(0, f64::INFINITY)).unwrap().turn_on);
    assert!(evaluate_rule(&light, &weather(0, -0.0)).unwrap().turn_on);
    assert!(evaluate_rule(&light, &weather(0, 75.0)).unwrap().turn_on);
    assert!(!evaluate_rule(&light, &weather(0, 125.0)).unwrap().turn_on);
    assert!(quantity(-1.0).less(&quantity(1.0)));
    assert!(quantity(-0.0).at_most(&quantity(0.0)));
    assert!(!quantity(-0.0).less(&quantity(0.0)));
    assert!(quantity(-2.0).less(&quantity(-1.0)));
    assert!(!quantity(f64::INFINITY).finite());
    assert!(quantity(f64::MAX).finite());
}

fn meteo() -> WeatherResponse {
    WeatherResponse {
        utc_offset_seconds: -14_400,
        timezone_abbreviation: "GMT-4".to_owned(),
        current: CurrentWeather {
            time: 100_000,
            temperature_2m: quantity(13.4),
            apparent_temperature: quantity(11.9),
            precipitation: quantity(0.0),
            weather_code: 3,
            cloud_cover: 100,
            is_day: 0,
            shortwave_radiation: quantity(42.5),
        },
        daily: DailyWeather {
            time: vec![0, 86_400],
            sunrise: vec![36_000, 122_400],
            sunset: vec![79_200, 165_600],
        },
        hourly: HourlyWeather {
            time: vec![0, 21_600, 36_000, 43_200, 64_800, 82_800, 86_400],
            shortwave_radiation: [0.0, 0.0, 100.0, 500.0, 50.0, 0.0, 0.0]
                .iter()
                .map(|radiation| Some(quantity(*radiation)))
                .collect(),
        },
    }
}

#[test]
fn a_weather_answer_maps_light_and_solar_times() {
    let snapshot = meteo().snapshot().unwrap();
    assert_eq!(snapshot.time, 100_000);
    assert_eq!(snapshot.sunrise, 122_400);
    assert_eq!(snapshot.sunset, 165_600);
    assert_eq!(number(snapshot.shortwave_radiation), 42.5);
    assert_eq!(
        snapshot.solar_days,
        vec![
            SolarForecastDay { day: -1, sunrise_minute: 6 * 60, sunset_minute: 18 * 60 },
            SolarForecastDay { day: 0, sunrise_minute: 6 * 60, sunset_minute: 18 * 60 },
        ]
    );
    let history = snapshot.previous_day_light.as_ref().unwrap();
    assert_eq!(history.readings.len(), 6);
    assert_eq!(history.sunrise, "6:00 AM");
    assert_eq!(history.sunset, "6:00 PM");
    assert_eq!((history.day_start, history.day_end), (0, 86_400));
    assert_eq!((history.solar_start, history.solar_end), (36_000, 79_200));
    assert_eq!(history.readings[3].index, 3);
    assert_eq!(history.average_days, 1);
    let at_eight = history.hours.iter().find(|hour| hour.time == "8:00 AM").unwrap();
    assert_eq!(at_eight.readings, vec![3]);
    let status = snapshot.status();
    assert_eq!(status.local_time, "11:46 PM");
    assert_eq!(status.current_minute, 23 * 60 + 46);
    assert_eq!(status.condition, "Overcast");
    assert_eq!(status.cloud_cover, 100);
    assert!(!status.is_day);
    assert_eq!(status.current_day, 0);
    assert_eq!(status.sunrise, "6:00 AM");
}

#[test]
fn weather_answers_that_lack_a_day_are_refused() {
    let mut answer = meteo();
    answer.daily.time = vec![100_001];
    assert_eq!(answer.snapshot().unwrap_err(), "Open-Meteo response omitted daily time");
    let mut answer = meteo();
    answer.daily.sunrise = vec![36_000];
    assert_eq!(answer.snapshot().unwrap_err(), "Open-Meteo response omitted sunrise");
    let mut answer = meteo();
    answer.daily.sunset = vec![79_200];
    assert_eq!(answer.snapshot().unwrap_err(), "Open-Meteo response omitted sunset");
    let mut answer = meteo();
    answer.hourly.time = Vec::new();
    assert!(answer.snapshot().unwrap().previous_day_light.is_none());
}

#[test]
fn light_history_collects_each_local_hour() {
    const DAY: i64 = 24 * 60 * 60;
    let hourly = HourlyWeather {
        time: vec![12 * 3_600, DAY + 12 * 3_600, 2 * DAY + 12 * 3_600],
        shortwave_radiation: vec![Some(quantity(300.0)), Some(quantity(600.0)), Some(quantity(0.0))],
    };

    let history = light_history(
        &hourly,
        0,
        2 * DAY,
        3 * DAY,
        2 * DAY + 6 * 3_600,
        2 * DAY + 18 * 3_600,
        0,
        3,
    )
    .unwrap();

    assert_eq!(history.average_days, 3);
    assert_eq!(history.hours.len(), 1);
    assert_eq!((history.hours[0].hour, history.hours[0].time.as_str()), (12, "12:00 PM"));
    assert_eq!(history.hours[0].readings, vec![0, 1, 2]);
    assert_eq!(history.readings.len(), 1);
    assert_eq!(history.readings[0].index, 2);
    assert_eq!(history.readings[0].time, "12:00 PM");
    assert!(light_history(&hourly, 0, 3 * DAY, 3 * DAY, 0, 0, 0, 3).is_none());
    let gaps = HourlyWeather { time: vec![5], shortwave_radiation: vec![None] };
    assert!(light_history(&gaps, 0, 0, DAY, 0, 0, 0, 1).is_none());
}

#[test]
fn weather_codes_have_names() {
    let cases = [
        (0, "Clear sky"),
        (1, "Mainly clear"),
        (2, "Partly cloudy"),
        (3, "Overcast"),
        (48, "Fog"),
        (53, "Drizzle"),
        (57, "Freezing drizzle"),
        (65, "Rain"),
        (66, "Freezing rain"),
        (77, "Snow"),
        (81, "Rain showers"),
        (86, "Snow showers"),
        (95, "Thunderstorm"),
        (99, "Thunderstorm with hail"),
        (4, "Unknown conditions"),
        (255, "Unknown conditions"),
    ];
    for (code, name) in cases {
        assert_eq!(weather_condition(code), name);
    }
}

#[test]
fn local_times_go_back_before_the_epoch() {
    assert_eq!(local_seconds(-1, 0), 86_399);
    assert_eq!(local_day(-1, 0), -1);
    assert_eq!(local_day(86_400, -1), 0);
    assert_eq!(local_minute(100_000, -14_400), 23 * 60 + 46);
    assert_eq!(local_time(0, 3_600), "1:00 AM");
    assert_eq!(local_seconds(i64::MAX, i32::MAX), (i64::MAX as i128 + i32::MAX as i128).rem_euclid(86_400) as i64);
}

fn degrees(ten_thousandths: i32) -> Degrees {
    Degrees {
        exact: Quantity { bits: (f64::from(ten_thousandths) / 10_000.0).to_bits() },
        text: (f64::from(ten_thousandths) / 10_000.0).to_string(),
        ten_thousandths,
    }
}

fn plug(id: &str, relay_on: bool, place: Option<(i32, i32)>) -> SmartPlug {
    SmartPlug {
        address: Address { v6: false, bits: 1 },
        model: "HS105(US)".to_owned(),
        alias: id.to_owned(),
        device_id: id.to_owned(),
        software_version: "1.5.6".to_owned(),
        relay_on,
        brightness: None,
        latitude: place.map(|place| degrees(place.0)),
        longitude: place.map(|place| degrees(place.1)),
    }
}

fn fixed(id: u64, device: &str, turn_on: bool, enabled: bool) -> AutomationRule {
    AutomationRule {
        id,
        device_id: device.to_owned(),
        name: format!("Rule {id}"),
        enabled,
        trigger: AutomationTrigger::FixedTime { minute_of_day: 0, weekdays: every_day() },
        turn_on,
        last_solar_day: None,
    }
}

#[test]
fn the_last_rule_of_a_device_decides() {
    let plugs = vec![
        plug("a", false, Some((1, 2))),
        plug("b", true, Some((1, 2))),
        plug("c", false, None),
    ];
    let rules = vec![
        fixed(1, "a", false, true),
        fixed(2, "a", true, true),
        fixed(3, "b", true, true),
        fixed(4, "c", true, true),
        fixed(5, "a", false, false),
        fixed(6, "missing", true, true),
    ];
    let places = needed_places(&rules, &plugs);
    assert_eq!(places.len(), 1);
    assert_eq!(Some(places[0]), Coordinate::from_plug(&plugs[0]));
    assert_eq!(Coordinate::from_plug(&plugs[2]), None);
    let forecasts = vec![Forecast { place: places[0], weather: weather(60, 0.0) }];
    let plan = evaluation_plan(&rules, &plugs, &forecasts);
    assert_eq!(plan.switches, vec![Switch { plug: 0, turn_on: true }]);
    assert_eq!(
        plan.triggered,
        vec![
            TriggeredRule { id: 1, day: 0 },
            TriggeredRule { id: 2, day: 0 },
            TriggeredRule { id: 3, day: 0 },
        ]
    );
}

#[test]
fn a_renamed_rule_keeps_its_day_and_another_trigger_forgets_it() {
    let solar = AutomationTrigger::Solar {
        event: SolarEvent::Sunset,
        offset_minutes: -30,
        weekdays: every_day(),
    };
    let stored = || AutomationRule {
        id: 1,
        device_id: "plug".to_owned(),
        name: "Evening".to_owned(),
        enabled: false,
        trigger: solar,
        turn_on: true,
        last_solar_day: Some(123),
    };
    let edit = |name: &str, trigger: AutomationTrigger, turn_on: bool| NewAutomation {
        device_id: "plug".to_owned(),
        name: name.to_owned(),
        enabled: true,
        trigger,
        turn_on,
    };
    let renamed = edited_rule(stored(), edit("Renamed evening", solar, true));
    assert_eq!(renamed.name, "Renamed evening");
    assert_eq!(renamed.last_solar_day, Some(123));
    assert!(!renamed.enabled);
    assert_eq!(edited_rule(stored(), edit("Evening", solar, false)).last_solar_day, None);
    let morning = AutomationTrigger::FixedTime {
        minute_of_day: 7 * 60 + 30,
        weekdays: [false, true, true, true, true, true, false],
    };
    let changed = edited_rule(stored(), edit("Weekday morning", morning, false));
    assert_eq!(changed.name, "Weekday morning");
    assert!(!changed.enabled);
    assert!(!changed.turn_on);
    assert_eq!(changed.last_solar_day, None);
    assert_eq!(changed.trigger, morning);
    let other_days = AutomationTrigger::Solar {
        event: SolarEvent::Sunset,
        offset_minutes: -30,
        weekdays: [true, true, true, true, true, true, false],
    };
    assert_eq!(edited_rule(stored(), edit("Evening", other_days, true)).last_solar_day, None);
}
