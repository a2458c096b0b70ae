use smarthome::automation::{
    ActiveWindow, AutomationRule, AutomationTrigger, OutsideWindowBehavior, SolarEvent, TimeBoundary,
};
use smarthome::calendar::{
    calendar_absolute_time, calendar_day_name, calendar_percent, fits_calendar, week_calendar_view,
    CalendarEntryView, Thresholds, WeekCalendarView,
};
use smarthome::clock::format_clock_time;
use smarthome::database::{
    history_cutoff, lacks_brightness, missing_columns, stored_id, take_over_groups, take_over_rules, timestamp,
    timestamp_at, unix_timestamp, ClockError, GroupFile, ImportError, MissingColumns, RuleFile,
};
use smarthome::date::{calendar_date, calendar_month_day, calendar_week_label};
use smarthome::forms::{
    comma_list, fixed_automation, group_members, light_automation, parse_action, parse_schedule_time,
    parse_time_boundary, solar_automation, validate_group_members, validated_schedule_name,
    AppError, CountdownForm, CountdownInput, FormField, LightAutomationForm, ScheduleForm,
    SolarAutomationForm, WeekdayFields,
};
use smarthome::group::{
    automation_group_id, automation_target, group_location_plug, group_panel, group_relay_notice,
    group_targets, group_view, require_group_location, require_location, require_room,
    short_device_id, unavailable_members, validated_group, DeviceGroup, MAX_GROUPS,
};
use smarthome::migration::{Action, Event, Migration};
use smarthome::notices::{
    created_notice, deleted_notice, missing_automation, missing_device, missing_group, scan_notice,
    updated_notice,
};
use smarthome::plug::{sorted_addresses, Address, Degrees, SmartPlug};
use smarthome::quantity::Quantity;
use smarthome::rules::{
    countdown_view, migrated_automation, schedule_panel, schedule_view, weekday_summary,
    CountdownRule, ScheduleRule,
};
use smarthome::schedule::{enabled_timed_events, winning_timed_event};
use smarthome::spans::scheduled_spans;
use smarthome::views::{automation_view, time_boundary_description, time_boundary_form_values};
use smarthome::weather::{SolarForecastDay, WeatherStatus};
use std::time::{Duration, UNIX_EPOCH};

fn quantity(value: f64) -> Quantity {
    Quantity { bits: value.to_bits() }
}

fn degrees(exact: f64, ten_thousandths: i32) -> Degrees {
    Degrees { exact: quantity(exact), text: exact.to_string(), ten_thousandths }
}

fn v4(last: u8) -> Address {
    Address { v6: false, bits: u32::from_be_bytes([192, 0, 2, last]) as u128 }
}

fn smart_plug(device_id: &str, alias: &str, relay_on: bool) -> SmartPlug {
    SmartPlug {
        address: v4(1),
        model: "HS105(US)".to_owned(),
        alias: alias.to_owned(),
        device_id: device_id.to_owned(),
        software_version: "1.5.6".to_owned(),
        relay_on,
        brightness: None,
        latitude: None,
        longitude: None,
    }
}

fn group(id: u64, name: &str, members: &[&str]) -> DeviceGroup {
    DeviceGroup { id, name: name.to_owned(), device_ids: texts(members) }
}

fn texts(parts: &[&str]) -> Vec<String> {
    parts.iter().map(|part| (*part).to_owned()).collect()
}

fn plug_schedule(stime_opt: i8) -> ScheduleRule {
    ScheduleRule {
        id: Some("plug-rule".to_owned()),
        name: "Morning".to_owned(),
        enabled: true,
        repeat: true,
        weekdays: [false, true, true, true, true, true, false],
        stime_opt,
        smin: 7 * 60 + 30,
        sact: 1,
        etime_opt: -1,
        emin: 0,
        eact: -1,
        soffset: Some(-20),
        eoffset: None,
        year: 0,
        month: 0,
        day: 0,
        latitude: quantity(0.0),
        longitude: quantity(0.0),
        force: 0,
        extra: Vec::new(),
    }
}

fn calendar_weather(current_day: i64, current_minute: u16) -> WeatherStatus {
    WeatherStatus {
        local_time: format_clock_time(current_minute / 60, current_minute % 60),
        current_minute,
        timezone: "UTC".to_owned(),
        condition: "Clear sky",
        is_day: true,
        shortwave_radiation: quantity(200.0),
        cloud_cover: 0,
        temperature: quantity(20.0),
        apparent_temperature: quantity(20.0),
        precipitation: quantity(0.0),
        sunrise: "6:00 AM".to_owned(),
        sunset: "6:00 PM".to_owned(),
        previous_day_light: None,
        current_day,
        solar_days: (current_day - 14..=current_day + 7)
            .map(|day| SolarForecastDay { day, sunrise_minute: 6 * 60, sunset_minute: 18 * 60 })
            .collect(),
    }
}

fn thresholds(rules: &Vec<AutomationRule>) -> Vec<Thresholds> {
    rules.iter().map(|rule| thresholds_of(rule)).collect()
}

fn thresholds_of(rule: &AutomationRule) -> Thresholds {
    let (on_below, off_above) = match rule.trigger {
        AutomationTrigger::LightLevel { on_below, off_above, .. } => {
            (f64::from_bits(on_below.bits), f64::from_bits(off_above.bits))
        }
        _ => (0.0, 0.0),
    };
    Thresholds { on_below: format!("{on_below:.0}"), off_above: format!("{off_above:.0}") }
}

fn week(rules: &Vec<AutomationRule>, weather: &WeatherStatus) -> WeekCalendarView {
    assert!(fits_calendar(rules, weather));
    week_calendar_view(rules, &thresholds(rules), weather)
}

fn status<T>(result: Result<T, AppError>) -> (u16, String) {
    match result {
        Ok(_) => panic!("the request should be refused"),
        Err(error) => (error.status, error.message),
    }
}

fn refusal(message: &str) -> (u16, String) {
    (400, message.to_owned())
}

#[test]
fn configured_device_addresses_are_trimmed_sorted_and_deduplicated() {
    let parse = |value: &str| -> Option<Vec<Address>> {
        let mut addresses = Vec::new();
        for part in comma_list(value) {
            let parts: Vec<u8> = part
                .split('.')
                .map(|octet| octet.parse::<u8>().ok())
                .collect::<Option<Vec<u8>>>()?;
            let octets: [u8; 4] = parts.try_into().ok()?;
            addresses.push(Address { v6: false, bits: u32::from_be_bytes(octets) as u128 });
        }
        Some(sorted_addresses(&addresses))
    };
    assert_eq!(parse("192.0.2.2, 192.0.2.1,192.0.2.2"), Some(vec![v4(1), v4(2)]));
    assert_eq!(parse("192.0.2.1,not-an-address"), None);
    assert_eq!(comma_list(" , a,, b c ,"), texts(&["a", "b c"]));
}

#[test]
fn group_views_report_mixed_and_unavailable_members() {
    let plugs = vec![
        smart_plug("plug-on", "Lamp", true),
        smart_plug("plug-off", "Fan", false),
    ];
    let mixed = group_view(
        group(1, "Room", &["plug-on", "plug-off", "plug-offline-12345678"]),
        &plugs,
    );
    assert_eq!(mixed.state, "Mixed");
    assert_eq!(mixed.reachable_count, 2);
    assert_eq!(mixed.member_count, 3);
    assert!(mixed.has_offline_members);
    assert_eq!(mixed.members, "Lamp, Fan, Unavailable …12345678");

    let unavailable = group_view(group(2, "Away", &["missing"]), &plugs);
    assert_eq!(unavailable.state, "Unavailable");
    assert_eq!(unavailable.state_class, "state-unavailable");
    assert_eq!(unavailable.reachable_count, 0);
    assert_eq!(group_view(group(3, "On", &["plug-on"]), &plugs).state_class, "state-on");
    let off = group_view(group(4, "Off", &["plug-off"]), &plugs);
    assert_eq!((off.state, off.state_class, off.has_offline_members), ("Off", "state-off", false));
    assert_eq!(short_device_id("12345678"), "Unavailable …12345678");
    assert_eq!(short_device_id("äbcdefghi"), "Unavailable …bcdefghi");
}

#[test]
fn group_panel_preserves_unavailable_members_for_explicit_removal() {
    let group = DeviceGroup {
        id: 7,
        name: "Downstairs".to_owned(),
        device_ids: vec!["online".to_owned(), "offline-12345678".to_owned()],
    };
    let panel = group_panel(Some(&group), &vec![smart_plug("online", "Desk lamp", true)]);

    assert!(panel.editing);
    assert_eq!(panel.devices.len(), 2);
    assert!(panel.devices[0].available);
    assert!(panel.devices[0].selected);
    assert!(!panel.devices[1].available);
    assert!(panel.devices[1].selected);

    assert_eq!(panel.id, Some(7));
    assert_eq!(panel.devices[1].device_id, "offline-12345678");
    assert_eq!(panel.devices[1].alias, "Unavailable …12345678");

    let fields = panel
        .devices
        .iter()
        .filter(|device| device.selected)
        .map(|device| FormField {
            name: device.field_name.clone(),
            value: device.device_id.clone(),
        })
        .collect();
    assert_eq!(panel.name, "Downstairs");
    assert_eq!(group_members(fields), texts(&["offline-12345678", "online"]));
}

#[test]
fn missing_members_stay_selected_in_the_group_panel() {
    let downstairs = group(7, "Downstairs", &["online", "offline-12345678"]);
    let plugs = vec![smart_plug("online", "Desk lamp", true), smart_plug("other", "Fan", true)];
    let panel = group_panel(Some(&downstairs), &plugs);

    assert!(panel.editing);
    assert_eq!(panel.id, Some(7));
    assert_eq!(panel.name, "Downstairs");
    assert_eq!(panel.devices.len(), 3);
    assert!(panel.devices[0].available);
    assert!(panel.devices[0].selected);
    assert!(panel.devices[1].available);
    assert!(!panel.devices[1].selected);
    assert!(!panel.devices[2].available);
    assert!(panel.devices[2].selected);
    assert_eq!(panel.devices[2].alias, "Unavailable …12345678");
    assert_eq!(panel.devices[2].field_name, "device_2");
    let empty = group_panel(None, &plugs);
    assert_eq!((empty.id, empty.name.as_str(), empty.editing), (None, "", false));
    assert!(empty.devices.iter().all(|device| device.available && !device.selected));
}

fn all_week() -> WeekdayFields {
    let on = || Some("on".to_owned());
    WeekdayFields { sun: on(), mon: on(), tue: on(), wed: on(), thu: on(), fri: on(), sat: on() }
}

fn no_days() -> WeekdayFields {
    WeekdayFields { sun: None, mon: None, tue: None, wed: None, thu: None, fri: None, sat: None }
}

fn solar_form(offset_minutes: i16) -> SolarAutomationForm {
    SolarAutomationForm {
        name: "Evening".to_owned(),
        event: "sunset".to_owned(),
        offset_minutes,
        action: "on".to_owned(),
        weekdays: all_week(),
    }
}

fn light_form(on_below: f64, off_above: f64) -> LightAutomationForm {
    LightAutomationForm {
        name: "Cloudy daytime".to_owned(),
        on_below: quantity(on_below),
        off_above: quantity(off_above),
        window_enabled: Some("on".to_owned()),
        start_kind: "fixed".to_owned(),
        start_time: "09:00".to_owned(),
        start_offset_minutes: 0,
        end_kind: "sunset".to_owned(),
        end_time: "17:00".to_owned(),
        end_offset_minutes: 0,
        outside_window: "turn_off".to_owned(),
    }
}

#[test]
fn automation_forms_validate_solar_offsets_and_light_hysteresis() {
    let solar = solar_automation(solar_form(-30), "plug".to_owned()).unwrap();
    assert_eq!(
        solar.trigger,
        AutomationTrigger::Solar {
            event: SolarEvent::Sunset,
            offset_minutes: -30,
            weekdays: [true; 7],
        }
    );
    assert!(solar.turn_on);
    assert!(solar_automation(solar_form(181), "plug".to_owned()).is_err());

    let light = light_automation(light_form(100.0, 125.0), "plug".to_owned()).unwrap();
    assert_eq!(
        light.trigger,
        AutomationTrigger::LightLevel {
            on_below: quantity(100.0),
            off_above: quantity(125.0),
            active_window: Some(ActiveWindow {
                start: TimeBoundary::Fixed { minute_of_day: 9 * 60 },
                end: TimeBoundary::Solar { event: SolarEvent::Sunset, offset_minutes: 0 },
                outside: OutsideWindowBehavior::TurnOff,
            }),
        }
    );
    assert!(light_automation(light_form(125.0, 125.0), "plug".to_owned()).is_err());
}

#[test]
fn forms_say_why_they_are_refused() {
    let plug = || "plug".to_owned();
    assert_eq!(
        status(solar_automation(solar_form(-181), plug())),
        refusal("solar offset must be between -180 and 180 minutes")
    );
    let mut form = solar_form(0);
    form.event = "noon".to_owned();
    assert_eq!(
        status(solar_automation(form, plug())),
        refusal("solar event must be sunrise or sunset")
    );
    let mut form = solar_form(0);
    form.action = "toggle".to_owned();
    assert_eq!(
        status(solar_automation(form, plug())),
        refusal("automation action must be on or off")
    );
    let mut form = solar_form(180);
    form.weekdays = no_days();
    assert_eq!(
        status(solar_automation(form, plug())),
        refusal("select at least one weekday for the schedule")
    );
    let thresholds = "light thresholds must satisfy 0 ≤ on below < off above ≤ 1500 W/m²";
    for (on_below, off_above) in
        [(-1.0, 5.0), (0.0, 1_500.5), (f64::NAN, 5.0), (0.0, f64::INFINITY), (6.0, 5.0)]
    {
        assert_eq!(
            status(light_automation(light_form(on_below, off_above), plug())),
            refusal(thresholds)
        );
    }
    assert!(light_automation(light_form(0.0, 1_500.0), plug()).is_ok());
    let mut form = light_form(1.0, 2.0);
    form.outside_window = "explode".to_owned();
    assert_eq!(
        status(light_automation(form, plug())),
        refusal("outside-window behavior must be turn off or stop controlling")
    );
    let mut form = light_form(1.0, 2.0);
    form.outside_window = "explode".to_owned();
    form.window_enabled = None;
    assert!(matches!(
        light_automation(form, plug()).unwrap().trigger,
        AutomationTrigger::LightLevel { active_window: None, .. }
    ));
    assert_eq!(
        status(parse_time_boundary("noon", "09:00", 0)),
        refusal("window boundary must be a fixed time, sunrise, or sunset")
    );
    assert_eq!(
        parse_time_boundary("sunrise", "", 180).unwrap(),
        TimeBoundary::Solar { event: SolarEvent::Sunrise, offset_minutes: 180 }
    );
    assert_eq!(status(validated_schedule_name(" \t")), refusal("schedule name cannot be empty"));
    assert_eq!(
        status(validated_schedule_name(&"ä".repeat(65))),
        refusal("schedule name cannot exceed 64 characters")
    );
    assert_eq!(validated_schedule_name(" ä ").unwrap(), "ä");
    assert_eq!(parse_action("off").unwrap(), false);
    assert_eq!(
        status(parse_schedule_time("07-15")),
        refusal("schedule time must use HH:MM format")
    );
    assert_eq!(
        status(parse_schedule_time("24:00")),
        refusal("schedule time must be between 00:00 and 23:59")
    );
}

#[test]
fn calendar_summary_skips_same_state_events_and_marks_same_time_winner() {
    let fixed = |id, name: &str, minute_of_day, turn_on, enabled| AutomationRule {
        id,
        device_id: "plug".to_owned(),
        name: name.to_owned(),
        enabled,
        trigger: AutomationTrigger::FixedTime {
            minute_of_day,
            weekdays: [false, true, false, false, false, false, false],
        },
        turn_on,
        last_solar_day: None,
    };
    let mut sunday_on = fixed(1, "Sunday evening", 20 * 60, true, true);
    sunday_on.trigger = AutomationTrigger::FixedTime {
        minute_of_day: 20 * 60,
        weekdays: [true, false, false, false, false, false, false],
    };
    let rules = vec![
        sunday_on,
        fixed(2, "Morning", 7 * 60, false, true),
        fixed(3, "Noon backup", 12 * 60, false, true),
        fixed(4, "Evening old", 18 * 60, true, true),
        fixed(5, "Evening new", 18 * 60, true, true),
        fixed(6, "Evening disabled", 18 * 60, false, false),
    ];

    let before = week(&rules, &calendar_weather(4, 7 * 60 - 1));
    assert_eq!(before.summary.as_ref().unwrap().state, "ON");
    assert_eq!(
        before.summary.as_ref().unwrap().next.as_deref(),
        Some("Next: OFF today at 7:00 AM · Morning")
    );
    let at_transition = week(&rules, &calendar_weather(4, 7 * 60));
    assert_eq!(at_transition.summary.as_ref().unwrap().state, "OFF");
    let sunday_night = week(&rules, &calendar_weather(10, 21 * 60));
    assert_eq!(
        sunday_night.summary.as_ref().unwrap().next.as_deref(),
        Some("Next: OFF tomorrow at 7:00 AM · Morning")
    );

    let calendar = week(&rules, &calendar_weather(4, 8 * 60));

    let summary = calendar.summary.as_ref().unwrap();
    assert_eq!(summary.state, "OFF");
    assert_eq!(summary.next.as_deref(), Some("Next: ON today at 6:00 PM · Evening new"));
    assert_eq!(calendar.conflicts.len(), 1);
    assert_eq!(
        calendar.conflicts[0].detail,
        "Monday at 6:00 PM: Evening new wins over Evening old because it was added most recently."
    );
    let monday = &calendar.days[0];
    assert!(monday.entries.iter().any(|entry| {
        entry.class.contains("scheduled-off")
            && entry.detail == "Scheduled off 7:00 AM–6:00 PM · set by Morning"
    }));
    let conflict_points: Vec<_> = monday
        .entries
        .iter()
        .filter(|entry| entry.point && entry.conflict)
        .collect();
    assert_eq!(conflict_points.len(), 2);
    assert_eq!(conflict_points.iter().find(|entry| entry.winner).unwrap().rule_id, 5);
    let disabled = monday.entries.iter().find(|entry| entry.rule_id == 6).unwrap();
    assert_eq!(disabled.detail, "6:00 PM · Turn off");
    assert!(!disabled.enabled);
    assert!(!disabled.conflict);
    assert_eq!(disabled.class, "calendar-entry fixed turn-off calendar-disabled");

    let mut fewer = rules.clone();
    fewer.remove(5);
    let without = week(&fewer, &calendar_weather(4, 8 * 60));
    assert_eq!(without.summary.unwrap().next, summary.next);
    assert_eq!(without.conflicts.len(), 1);
    assert_eq!(without.conflicts[0].detail, calendar.conflicts[0].detail);
    let states = |entries: &Vec<CalendarEntryView>| -> Vec<(String, u32, u32)> {
        let spans = entries.iter().filter(|entry| !entry.point);
        spans.map(|entry| (entry.detail.clone(), entry.left, entry.width)).collect()
    };
    for day in 0..7 {
        assert_eq!(states(&without.days[day].entries), states(&calendar.days[day].entries));
    }

    let slots = enabled_timed_events(&rules, 4, &Vec::new());
    let evening = slots.iter().find(|slot| slot.at == 4 * 1_440 + 18 * 60).unwrap();
    assert_eq!(evening.rules, vec![3, 4]);
    assert_eq!(winning_timed_event(evening), 4);
    assert!(slots.iter().all(|slot| !slot.rules.contains(&5)));
    let spans = scheduled_spans(&slots, &rules, 4 * 1_440, 11 * 1_440);
    assert_eq!(spans[0].start, 4 * 1_440);
    assert_eq!(spans[spans.len() - 1].end, 11 * 1_440);
    assert!(spans.windows(2).all(|pair| pair[0].end == pair[1].start));
    let now = 4 * 1_440 + 8 * 60;
    let current = spans.iter().find(|span| span.start <= now && now < span.end).unwrap();
    assert!(!rules[current.rule].turn_on);
}

#[test]
fn a_state_lasts_from_the_first_event_that_is_known() {
    let rules = vec![AutomationRule {
        id: 3,
        device_id: "plug".to_owned(),
        name: "Dawn".to_owned(),
        enabled: true,
        trigger: AutomationTrigger::Solar {
            event: SolarEvent::Sunrise,
            offset_minutes: 0,
            weekdays: [true; 7],
        },
        turn_on: true,
        last_solar_day: None,
    }];
    let mut weather = calendar_weather(5, 60);
    weather.solar_days = vec![SolarForecastDay { day: 4, sunrise_minute: 360, sunset_minute: 1_200 }];
    let calendar = week(&rules, &weather);

    assert_eq!(calendar.summary.as_ref().unwrap().state, "ON");
    let states = |day: usize| -> Vec<(u32, u32, String)> {
        let entries = calendar.days[day].entries.iter().filter(|entry| !entry.point);
        entries.map(|entry| (entry.left, entry.width, entry.class.clone())).collect()
    };
    let on = "calendar-entry scheduled-on".to_owned();
    assert_eq!(states(0), vec![(2_500, 7_500, on.clone())]);
    for day in 1..7 {
        assert_eq!(states(day), vec![(0, 10_000, on.clone())]);
    }
    let slots = enabled_timed_events(&rules, 4, &weather.solar_days);
    let spans = scheduled_spans(&slots, &rules, 4 * 1_440, 11 * 1_440);
    assert_eq!(spans.len(), 1);
    assert_eq!((spans[0].start, spans[0].end, spans[0].rule), (4 * 1_440 + 360, 11 * 1_440, 0));
    assert!(scheduled_spans(&slots, &rules, -3 * 1_440, 4 * 1_440).is_empty());

    weather.current_day = 4;
    assert!(week(&rules, &weather).summary.is_none());
}

#[test]
fn light_rules_set_no_scheduled_state() {
    let rules = persisted_rules();
    let slots = enabled_timed_events(&rules, 4, &Vec::new());
    assert_eq!(slots.len(), 15);
    assert!(slots.iter().all(|slot| slot.rules == vec![1]));
}

#[test]
fn calendar_dates_cover_month_and_leap_day_boundaries() {
    assert_eq!(calendar_date(0), "Jan 1");
    assert_eq!(calendar_date(31), "Feb 1");
    assert_eq!(calendar_date(11_016), "Feb 29");
    assert_eq!(calendar_week_label(20_689), "Aug 24–30");
}

#[test]
fn calendar_dates_go_on_before_the_epoch_and_across_months() {
    assert_eq!(calendar_month_day(-1), ("Dec", 31));
    assert_eq!(calendar_month_day(-719_468), ("Mar", 1));
    assert_eq!(calendar_month_day(-719_469), ("Feb", 29));
    assert_eq!(calendar_month_day(11_017), ("Mar", 1));
    assert_eq!(calendar_week_label(27), "Jan 28–Feb 3");
    assert_eq!(calendar_day_name(0), "Thursday");
    assert_eq!(calendar_day_name(-1), "Wednesday");
    assert_eq!(calendar_absolute_time(-1), "11:59 PM");
    assert_eq!(calendar_percent(1_440), 10_000);
    assert_eq!(calendar_percent(450), 3_125);
    assert_eq!(calendar_percent(1_215), 8_438);
    assert_eq!(calendar_percent(1), 7);
}

#[test]
fn calendar_projects_a_single_weekday_state_across_the_week() {
    let rules = vec![AutomationRule {
        id: 1,
        device_id: "plug".to_owned(),
        name: "Weekly shutdown".to_owned(),
        enabled: true,
        trigger: AutomationTrigger::FixedTime {
            minute_of_day: 7 * 60,
            weekdays: [false, true, false, false, false, false, false],
        },
        turn_on: false,
        last_solar_day: None,
    }];
    let calendar = week(&rules, &calendar_weather(4, 8 * 60));
    assert!(calendar.days.iter().all(|day| day.entries.iter().any(|entry| {
        entry.class.contains("scheduled-off")
            && entry.width == 10_000
            && entry.detail == "Scheduled off all week · carried over from Weekly shutdown"
    })));
    assert_eq!(calendar.summary.as_ref().unwrap().state, "OFF");
    assert_eq!(calendar.summary.as_ref().unwrap().next, None);
    assert!(calendar.has_entries);
    assert_eq!(calendar.week_label, "Jan 5–11");
    let empty = week(&Vec::new(), &calendar_weather(4, 8 * 60));
    assert!(!empty.has_entries);
    assert!(empty.summary.is_none());
    assert!(empty.days.iter().all(|day| day.lane_count == 1 && day.entries.is_empty()));
}

fn persisted_rules() -> Vec<AutomationRule> {
    vec![
        AutomationRule {
            id: 7,
            device_id: "plug".to_owned(),
            name: "Evening".to_owned(),
            enabled: true,
            trigger: AutomationTrigger::Solar {
                event: SolarEvent::Sunset,
                offset_minutes: -30,
                weekdays: [true; 7],
            },
            turn_on: true,
            last_solar_day: None,
        },
        AutomationRule {
            id: 8,
            device_id: "plug".to_owned(),
            name: "Morning".to_owned(),
            enabled: true,
            trigger: AutomationTrigger::FixedTime {
                minute_of_day: 7 * 60 + 30,
                weekdays: [false, true, true, true, true, true, false],
            },
            turn_on: false,
            last_solar_day: None,
        },
        AutomationRule {
            id: 9,
            device_id: "plug".to_owned(),
            name: "Cloudy daytime".to_owned(),
            enabled: true,
            trigger: AutomationTrigger::LightLevel {
                on_below: quantity(80.0),
                off_above: quantity(120.0),
                active_window: Some(ActiveWindow {
                    start: TimeBoundary::Fixed { minute_of_day: 9 * 60 },
                    end: TimeBoundary::Solar { event: SolarEvent::Sunset, offset_minutes: -10 },
                    outside: OutsideWindowBehavior::StopControlling,
                }),
            },
            turn_on: true,
            last_solar_day: None,
        },
    ]
}

#[test]
fn automation_panel_renders_persisted_rules_and_actions() {
    let weather = WeatherStatus {
        local_time: "8:15 PM".to_owned(),
        current_minute: 20 * 60 + 15,
        timezone: "GMT-4".to_owned(),
        condition: "Overcast",
        is_day: false,
        shortwave_radiation: quantity(42.5),
        cloud_cover: 100,
        temperature: quantity(13.4),
        apparent_temperature: quantity(11.9),
        precipitation: quantity(0.0),
        sunrise: "6:33 AM".to_owned(),
        sunset: "8:19 PM".to_owned(),
        previous_day_light: None,
        current_day: 0,
        solar_days: (-10..=3)
            .map(|day| SolarForecastDay {
                day,
                sunrise_minute: 6 * 60 + 30,
                sunset_minute: 20 * 60 + 20,
            })
            .collect(),
    };
    let rules = persisted_rules();
    let calendar = week(&rules, &weather);
    assert_eq!(calendar.days.len(), 7);
    assert!(calendar.days[3].is_today);
    assert_eq!(calendar.timezone, "GMT-4");
    let points = |day: usize| -> Vec<u64> {
        calendar.days[day]
            .entries
            .iter()
            .filter(|entry| entry.point)
            .map(|entry| entry.rule_id)
            .collect()
    };
    assert_eq!(points(0), vec![7, 8]);
    assert_eq!(points(5), vec![7]);
    let monday_on_spans: Vec<_> = calendar.days[0]
        .entries
        .iter()
        .filter(|entry| entry.class.contains("scheduled-on"))
        .collect();
    assert_eq!(monday_on_spans.len(), 2);
    assert_eq!(monday_on_spans[0].left, 0);
    assert_eq!(monday_on_spans[0].width, 3_125);
    assert_eq!(
        monday_on_spans[1].detail,
        "Scheduled on 7:50 PM–7:30 AM · set by Evening"
    );
    let monday_off_span = calendar.days[0]
        .entries
        .iter()
        .find(|entry| entry.class.contains("scheduled-off"))
        .unwrap();
    assert_eq!(monday_off_span.left, 3_125);
    assert_eq!(monday_off_span.label, "OFF");
    assert_eq!(
        monday_off_span.detail,
        "Scheduled off 7:30 AM–7:50 PM · set by Morning"
    );
    let window = calendar.days[0]
        .entries
        .iter()
        .find(|entry| entry.label == "AUTO · ≤ 80 W/m²")
        .unwrap();
    assert_eq!(window.detail, "Active 9:00 AM–8:10 PM · turns off at ≥ 120 W/m²");
    assert_eq!(window.lane, 1);
    assert_eq!(calendar.current_left, 8_438);
    assert_eq!(
        calendar.summary.as_ref().unwrap().next.as_deref(),
        Some("Next: OFF tomorrow at 7:30 AM · Morning")
    );
    assert!(calendar.days[0].entries.iter().any(|entry| entry.label == "7:50 ↓"));
    assert!(calendar.days[0].entries.iter().any(|entry| entry.detail == "7:50 PM · Turn on"));
}

#[test]
fn rules_that_do_not_fit_a_day_are_told_apart() {
    let mut rules = persisted_rules();
    let mut weather = calendar_weather(4, 0);
    weather.solar_days = Vec::new();
    let mut window = |start: u16, end: TimeBoundary| {
        rules[2].trigger = AutomationTrigger::LightLevel {
            on_below: quantity(80.0),
            off_above: quantity(120.0),
            active_window: Some(ActiveWindow {
                start: TimeBoundary::Fixed { minute_of_day: start },
                end,
                outside: OutsideWindowBehavior::StopControlling,
            }),
        };
        fits_calendar(&rules, &weather)
    };
    let fixed = |minute_of_day: u16| TimeBoundary::Fixed { minute_of_day };
    assert!(window(540, fixed(60_000)));
    assert!(window(1_440, fixed(5)));
    assert!(!window(60_000, fixed(5)));
    assert!(window(60_000, fixed(60_000)));
    let sunset = TimeBoundary::Solar { event: SolarEvent::Sunset, offset_minutes: 0 };
    assert!(window(1_441, sunset));
    let calendar = week(&rules, &weather);
    assert!(calendar.days.iter().all(|day| day.entries.iter().all(|entry| entry.rule_id != 9)));
    let mut forecast = calendar_weather(4, 0);
    forecast.solar_days = vec![SolarForecastDay { day: 4, sunrise_minute: 360, sunset_minute: 1_200 }];
    assert!(!fits_calendar(&rules, &forecast));
    forecast.solar_days[0].day = 11;
    assert!(fits_calendar(&rules, &forecast));
}

#[test]
fn rule_views_describe_rules_and_fill_forms() {
    let rules = persisted_rules();
    let view = |index: usize| automation_view(&rules[index], &thresholds_of(&rules[index]));
    let evening = view(0);
    assert_eq!((evening.title, evening.kind, evening.event), ("Sunset", "solar", "sunset"));
    assert_eq!(evening.description, "Turn on 30 min before sunset · Every day");
    assert_eq!(evening.offset_minutes, -30);
    let morning = view(1);
    assert_eq!(morning.time, "07:30");
    assert_eq!(morning.description, "7:30 AM · Turn off · Weekdays");
    assert_eq!(morning.weekdays, [false, true, true, true, true, true, false]);
    let cloudy = view(2);
    assert_eq!(
        cloudy.description,
        "9:00 AM–10 min before sunset · On ≤ 80 W/m² · Off ≥ 120 W/m²"
    );
    assert_eq!((cloudy.start_kind, cloudy.start_time.as_str()), ("fixed", "09:00"));
    assert_eq!((cloudy.end_kind, cloudy.end_offset_minutes), ("sunset", -10));
    assert_eq!(cloudy.end_time, "17:00");
    assert!(!cloudy.outside_turn_off);
    let mut nameless = persisted_rules();
    nameless[2].name = " ".to_owned();
    nameless[2].trigger = AutomationTrigger::LightLevel {
        on_below: quantity(1.0),
        off_above: quantity(2.0),
        active_window: None,
    };
    let all_day = automation_view(&nameless[2], &thresholds_of(&nameless[2]));
    assert_eq!(all_day.name, "Outdoor light");
    assert_eq!(all_day.description, "On ≤ 1 W/m² · Off ≥ 2 W/m² · All day");
    let edge = TimeBoundary::Solar { event: SolarEvent::Sunrise, offset_minutes: 5 };
    assert_eq!(time_boundary_description(edge), "5 min after sunrise");
    let (kind, time, offset) = time_boundary_form_values(edge, "09:00");
    assert_eq!(parse_time_boundary(kind, &time, offset).unwrap(), edge);
    let noon = TimeBoundary::Fixed { minute_of_day: 720 };
    let (kind, time, offset) = time_boundary_form_values(noon, "09:00");
    assert_eq!(parse_time_boundary(kind, &time, offset).unwrap(), noon);
}

#[test]
fn countdown_form_validates_and_builds_protocol_rule() {
    let input = CountdownInput::from_form(CountdownForm { minutes: 30, action: "off".to_owned() })
        .unwrap();
    let rule = input.rule();

    assert_eq!(rule.delay, 1_800);
    assert!(!rule.turn_on);
    assert!(rule.enabled);
    assert!(CountdownInput::from_form(CountdownForm { minutes: 0, action: "on".to_owned() }).is_err());
    assert!(
        CountdownInput::from_form(CountdownForm { minutes: 1_441, action: "on".to_owned() }).is_err()
    );
    assert_eq!(rule.name, "Web timer");
    assert_eq!(
        status(CountdownInput::from_form(CountdownForm { minutes: 5, action: "x".to_owned() })),
        refusal("timer action must be on or off")
    );
    assert_eq!(
        status(CountdownInput::from_form(CountdownForm { minutes: 0, action: "x".to_owned() })),
        refusal("timer duration must be between 1 minute and 24 hours")
    );
}

#[test]
fn countdowns_are_shown_in_minutes_and_seconds() {
    let shown = |delay: u64, turn_on: bool| {
        let view = countdown_view(CountdownRule {
            id: None,
            name: "Timer".to_owned(),
            enabled: true,
            delay,
            turn_on,
            extra: Vec::new(),
        });
        assert_eq!(view.id, "");
        format!("{} in {}", view.action, view.delay)
    };
    assert_eq!(shown(1_800, false), "Turn off in 30 min");
    assert_eq!(shown(61, true), "Turn on in 1 min 1 sec");
}

#[test]
fn fixed_automation_validates_and_preserves_weekdays() {
    assert_eq!(parse_schedule_time("07:15").unwrap(), 435);
    assert!(parse_schedule_time("7:15").is_err());
    assert!(parse_schedule_time("23:60").is_err());

    let on = || Some("on".to_owned());
    let form = |time: &str, weekdays: WeekdayFields| ScheduleForm {
        name: "Morning".to_owned(),
        time: time.to_owned(),
        action: "on".to_owned(),
        weekdays,
    };
    let fixed = fixed_automation(
        form(
            "07:30",
            WeekdayFields {
                sun: None,
                mon: on(),
                tue: on(),
                wed: on(),
                thu: on(),
                fri: on(),
                sat: None,
            },
        ),
        "plug".to_owned(),
    )
    .unwrap();
    assert_eq!(fixed.name, "Morning");
    assert_eq!(
        fixed.trigger,
        AutomationTrigger::FixedTime {
            minute_of_day: 450,
            weekdays: [false, true, true, true, true, true, false],
        }
    );

    let sunday = WeekdayFields { sun: on(), ..no_days() };
    assert!(fixed_automation(form("24:00", sunday), "plug".to_owned()).is_err());
    assert!(fixed_automation(form("07:30", no_days()), "plug".to_owned()).is_err());
}

#[test]
fn compatible_plug_schedules_convert_without_losing_behavior() {
    let fixed = migrated_automation(&plug_schedule(0), false, "plug").unwrap();
    assert_eq!(fixed.name, "Morning");
    assert!(!fixed.enabled);
    assert!(fixed.turn_on);
    assert_eq!(
        fixed.trigger,
        AutomationTrigger::FixedTime {
            minute_of_day: 450,
            weekdays: [false, true, true, true, true, true, false],
        }
    );

    let solar = migrated_automation(&plug_schedule(2), true, "plug").unwrap();
    assert_eq!(
        solar.trigger,
        AutomationTrigger::Solar {
            event: SolarEvent::Sunset,
            offset_minutes: -20,
            weekdays: [false, true, true, true, true, true, false],
        }
    );

    let mut advanced = plug_schedule(0);
    advanced.etime_opt = 0;
    assert!(migrated_automation(&advanced, true, "plug").is_none());
}

#[test]
fn plug_schedules_are_shown_and_counted() {
    let mut advanced = plug_schedule(3);
    advanced.sact = 2;
    advanced.weekdays = [false; 7];
    let panel = schedule_panel(vec![plug_schedule(0), plug_schedule(1), advanced]);
    assert_eq!((panel.migratable_count, panel.unsupported_count), (2, 1));
    assert_eq!(panel.rules[0].time, "7:30 AM");
    assert_eq!(panel.rules[1].time, "20 min before sunrise");
    assert_eq!(panel.rules[2].time, "Solar/advanced");
    assert_eq!(panel.rules[2].action, "Advanced action");
    assert_eq!(panel.rules[2].weekday_summary, "No weekdays");
    assert!(schedule_view(plug_schedule(0)).migratable);
    assert_eq!(weekday_summary([true; 7]), "Every day");
    assert_eq!(
        weekday_summary([true, false, false, false, false, false, true]),
        "Sun, Sat"
    );
}

#[test]
fn schedules_move_one_after_the_other() {
    let mut second = plug_schedule(2);
    second.id = Some("second".to_owned());
    let mut fixed_for_good = plug_schedule(0);
    fixed_for_good.repeat = false;
    let (mut migration, action) =
        Migration::begin(vec![fixed_for_good, plug_schedule(0), second], true, "plug");
    assert!(matches!(action, Action::Add(rule) if rule.device_id == "plug" && rule.enabled));
    let action = migration.advance(Event::Added(40));
    assert!(matches!(action, Action::DeleteSchedule(id) if id == "plug-rule"));
    let action = migration.advance(Event::Deleted);
    assert!(matches!(
        action,
        Action::Add(rule) if matches!(rule.trigger, AutomationTrigger::Solar { .. })
    ));
    let action = migration.advance(Event::Added(41));
    assert!(matches!(action, Action::DeleteSchedule(id) if id == "second"));
    assert!(matches!(migration.advance(Event::Deleted), Action::Finish));
    assert!(matches!(Migration::begin(Vec::new(), true, "plug").1, Action::Finish));
}

#[test]
fn a_schedule_that_the_plug_keeps_is_taken_back() {
    let failing = |take_back: Event| {
        let (mut migration, _) = Migration::begin(vec![plug_schedule(0)], true, "plug");
        migration.advance(Event::Added(40));
        let action = migration.advance(Event::DeleteFailed("timed out".to_owned()));
        assert!(matches!(action, Action::DeleteRule(40)));
        match migration.advance(take_back) {
            Action::Fail(error) => (error.status, error.message),
            _ => panic!("the move should fail"),
        }
    };
    assert_eq!(failing(Event::TakenBack), (500, "timed out".to_owned()));
    assert_eq!(
        failing(Event::TakeBackFailed("locked".to_owned())),
        (
            500,
            "could not remove plug schedule (timed out) or roll back server schedule (locked)".to_owned()
        )
    );
    let (mut migration, _) = Migration::begin(vec![plug_schedule(0)], true, "plug");
    assert!(matches!(
        migration.advance(Event::AddFailed("full".to_owned())),
        Action::Fail(error) if error.message == "full"
    ));
}

#[test]
fn group_targets_read_back_and_other_texts_do_not() {
    for id in [0, 7, u64::MAX] {
        assert_eq!(automation_group_id(&automation_target(id)), Some(id));
    }
    assert_eq!(automation_target(42), "group:42");
    assert_eq!(automation_group_id("group:+5"), Some(5));
    for text in ["group:", "group:-1", "group:18446744073709551616", "Group:1", "plug", "group: 1"] {
        assert_eq!(automation_group_id(text), None);
    }
}

#[test]
fn groups_need_a_name_and_distinct_members() {
    let refused = |name: &str, members: &[&str]| status(validated_group(name, texts(members)));
    assert_eq!(refused("  ", &["plug-1"]), refusal("group name cannot be empty"));
    assert_eq!(
        refused(&"n".repeat(65), &["plug-1"]),
        refusal("group name cannot exceed 64 characters")
    );
    assert_eq!(refused("Empty", &[]), refusal("select at least one device for the group"));
    assert_eq!(refused("Empty", &["a", ""]), refusal("group member IDs cannot be empty"));
    assert_eq!(
        refused("Duplicate", &["plug-1", "plug-1"]),
        refusal("a device can appear only once in a group")
    );
    let group = validated_group(" Downstairs ", texts(&["plug-1", "plug-2"])).unwrap();
    assert_eq!(group.name, "Downstairs");
    assert_eq!(group.device_ids, texts(&["plug-1", "plug-2"]));
    assert!(require_room(MAX_GROUPS - 1).is_ok());
    assert_eq!(status(require_room(MAX_GROUPS)), refusal("no more than 50 groups can be created"));
}

#[test]
fn invalid_names_and_memberships_are_rejected_without_changing_store() {
    assert!(validated_group("  ", vec!["plug-1".to_owned()]).is_err());
    assert!(validated_group("Empty", Vec::new()).is_err());
    assert!(
        validated_group("Duplicate", vec!["plug-1".to_owned(), "plug-1".to_owned()]).is_err()
    );
}

#[test]
fn group_limit_matches_kasa() {
    let mut groups: Vec<DeviceGroup> = Vec::new();
    for index in 0..MAX_GROUPS {
        require_room(groups.len() as u64).unwrap();
        let group =
            validated_group(&format!("Group {index}"), vec![format!("plug-{index}")]).unwrap();
        groups.push(DeviceGroup { id: index, name: group.name, device_ids: group.device_ids });
    }

    assert!(validated_group("One too many", vec!["extra-plug".to_owned()]).is_ok());
    assert!(require_room(groups.len() as u64).is_err());
    assert_eq!(groups.len() as u64, MAX_GROUPS);
}

#[test]
fn group_forms_collect_their_members_in_order() {
    let field = |name: &str, value: &str| FormField { name: name.to_owned(), value: value.to_owned() };
    assert_eq!(
        group_members(vec![
            field("device_2", "c"),
            field("other", "x"),
            field("device_0", "b"),
            field("device_1", "a"),
        ]),
        texts(&["a", "b", "c"])
    );
    assert!(validate_group_members(&texts(&["a"]), &texts(&["b", "a"])).is_ok());
    assert_eq!(
        status(validate_group_members(&texts(&["a", "z", "y"]), &texts(&["a"]))),
        refusal("device z is not available for this group")
    );
}

#[test]
fn a_group_takes_the_place_of_a_member_that_knows_it() {
    let mut plugs = vec![
        smart_plug("a", "A", true),
        smart_plug("b", "B", true),
        smart_plug("c", "C", true),
    ];
    plugs[2].latitude = Some(degrees(0.0001, 1));
    plugs[2].longitude = Some(degrees(0.0002, 2));
    assert_eq!(group_location_plug(&group(1, "g", &["b", "c"]), &plugs), Some(2));
    assert_eq!(group_location_plug(&group(1, "g", &["x", "b", "a"]), &plugs), Some(1));
    assert_eq!(group_location_plug(&group(1, "g", &["x"]), &plugs), None);
    assert_eq!(require_group_location(&group(1, "g", &["a", "c"]), &plugs).unwrap(), 2);
    assert_eq!(
        status(require_group_location(&group(1, "g", &["x"]), &plugs)),
        refusal("the group has no remembered members with a location")
    );
    assert_eq!(
        status(require_location(&plugs[0])),
        refusal("this plug does not have location coordinates configured")
    );
    assert_eq!(group_targets(&group(1, "g", &["c", "a", "x"]), &plugs), vec![0, 2]);
    assert_eq!(unavailable_members(3, 2, 1), 2);
    assert_eq!(unavailable_members(1, 2, 2), 2);
}

#[test]
fn notices_say_what_was_done() {
    assert_eq!(scan_notice(0), "Scan complete: 0 devices responded.");
    assert_eq!(scan_notice(1), "Scan complete: 1 device responded.");
    assert_eq!(created_notice(" A "), "Created group “A”.");
    assert_eq!(updated_notice(" A "), "Updated group “A”.");
    assert_eq!(deleted_notice(" A "), "Deleted group “ A ”.");
    let missing = |error: AppError| (error.status, error.message);
    assert_eq!(missing(missing_device("x")), (404, "device x was not found".to_owned()));
    assert_eq!(missing(missing_group(3)), (404, "group 3 was not found".to_owned()));
    assert_eq!(missing(missing_automation(4)), (404, "automation 4 was not found".to_owned()));
    assert_eq!(
        group_relay_notice("Room", true, 0, 3),
        "No members of “Room” could be controlled."
    );
    assert_eq!(group_relay_notice("Room", true, 1, 0), "Turned on 1 device in “Room”.");
    assert_eq!(
        group_relay_notice("Room", false, 2, 1),
        "Turned off 2 devices in “Room”. 1 member was unavailable."
    );
    assert_eq!(
        group_relay_notice("Room", false, 2, 2),
        "Turned off 2 devices in “Room”. 2 members were unavailable."
    );
}

#[test]
fn files_are_taken_over_once() {
    let rules = || RuleFile {
        next_id: 4,
        rules: vec![AutomationRule {
            id: 4,
            device_id: "plug-1".to_owned(),
            name: String::new(),
            enabled: true,
            trigger: AutomationTrigger::Solar {
                event: SolarEvent::Sunset,
                offset_minutes: -15,
                weekdays: [true; 7],
            },
            turn_on: true,
            last_solar_day: Some(86_400),
        }],
    };
    let taken = take_over_rules(0, Some(rules())).unwrap().unwrap();
    assert_eq!(taken.sequence, 4);
    assert_eq!(taken.rows.len(), 1);
    assert_eq!((taken.rows[0].id, taken.rows[0].device_id.as_str()), (4, "plug-1"));
    assert_eq!(taken.rows[0].last_solar_day, Some(86_400));
    assert!(take_over_rules(1, Some(rules())).unwrap().is_none());
    assert!(take_over_rules(0, None).unwrap().is_none());
    let groups = |next_id: u64, id: u64| GroupFile {
        next_id,
        groups: vec![group(id, "Living room", &["plug-1", "plug-2"])],
    };
    let taken = take_over_groups(0, Some(groups(2, 2))).unwrap().unwrap();
    assert_eq!(taken.rows[0].device_ids, texts(&["plug-1", "plug-2"]));
    assert!(take_over_groups(1, Some(groups(2, 2))).unwrap().is_none());
    for (next_id, id) in [(u64::MAX, 2), (2, u64::MAX)] {
        assert_eq!(
            take_over_groups(0, Some(groups(next_id, id))).unwrap_err(),
            ImportError::IdOutOfRange
        );
    }
    let mut wide = rules();
    wide.rules[0].id = 1 << 63;
    assert_eq!(take_over_rules(0, Some(wide)).unwrap_err(), ImportError::IdOutOfRange);
}

#[test]
fn times_and_identities_fit_the_database() {
    assert_eq!(timestamp(5), Ok(5));
    assert_eq!(timestamp(1 << 63), Err(ClockError::OutOfRange));
    assert!(unix_timestamp().unwrap() > 1_600_000_000);
    assert_eq!(timestamp_at(UNIX_EPOCH), Ok(0));
    assert_eq!(timestamp_at(UNIX_EPOCH + Duration::from_millis(5_999)), Ok(5));
    assert_eq!(timestamp_at(UNIX_EPOCH - Duration::from_millis(1)), Err(ClockError::BeforeEpoch));
    assert_eq!(stored_id(i64::MAX as u64), Some(i64::MAX));
    assert_eq!(stored_id(1 << 63), None);
    assert_eq!(history_cutoff(7_776_001), Some(1));
    assert_eq!(history_cutoff(i64::MIN), None);
    assert_eq!(
        missing_columns(&texts(&["id", "name"])),
        MissingColumns { name: false, enabled: true }
    );
    assert!(lacks_brightness(&texts(&["id", "relay_on"])));
    assert!(!lacks_brightness(&texts(&["id", "brightness"])));
}
