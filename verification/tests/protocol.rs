use smarthome::client::{
    added_rule_id, command_request, command_response, discovery_datagram, lacks_module,
    require_rule_id, FactoryResetConfirmation, SmartHomeClient,
};
use smarthome::energy::{
    normalized_value, parse_daily_energy, parse_monthly_energy, parse_realtime_energy,
    DailyEnergy, DayStatistic, EnergyReading, Measure, MonthStatistic, MonthlyEnergy,
    RealtimeEnergyResponse,
};
use smarthome::json::{json_of, read_json, value_of, write_json, Json, Member, Number};
use smarthome::plug::{inventory, parse_sysinfo, smart_plug, sorted_addresses, Address, SmartPlug, SysInfo};
use smarthome::quantity::Quantity;
use smarthome::rules::{cloud_info, rule_set, weekday_flags, weekdays_of, AccessPoint, CountdownRule};
use smarthome::wire::{
    decrypt, echo, encode_frame, encrypt, frame_document, frame_length, read_frame,
};
use smarthome::Error;
use std::time::Duration;

fn v4(a: u8, b: u8, c: u8, d: u8) -> Address {
    Address { v6: false, bits: u32::from_be_bytes([a, b, c, d]) as u128 }
}

fn object(members: Vec<(&str, Json)>) -> Json {
    Json::Object(
        members
            .into_iter()
            .map(|(name, value)| Member { name: name.to_owned(), value })
            .collect(),
    )
}

fn quantity(value: f64) -> Quantity {
    Quantity { bits: value.to_bits() }
}

fn measured(measure: Measure) -> f64 {
    match measure {
        Measure::Whole(value) => f64::from_bits(value.bits),
        Measure::Thousandths(value) => f64::from_bits(value.bits) / 1_000.0,
    }
}

fn number(value: f64) -> Option<Quantity> {
    Some(quantity(value))
}

fn parsed(text: &str) -> Json {
    read_json(text.as_bytes()).unwrap()
}

fn written(json: &Json) -> String {
    String::from_utf8(write_json(json).unwrap()).unwrap()
}

#[test]
fn get_sysinfo_request_matches_smart_home_wire_format() {
    let expected = [
        0xd0, 0xf2, 0x81, 0xf8, 0x8b, 0xff, 0x9a, 0xf7, 0xd5, 0xef, 0x94, 0xb6, 0xd1, 0xb4, 0xc0,
        0x9f, 0xec, 0x95, 0xe6, 0x8f, 0xe1, 0x87, 0xe8, 0xca, 0xf0, 0x8b, 0xf6, 0x8b, 0xf6,
    ];
    assert_eq!(encrypt(br#"{"system":{"get_sysinfo":{}}}"#), expected);
    assert_eq!(discovery_datagram(), expected);
}

#[test]
fn discovery_response_produces_inventory_entry() {
    let plaintext = br#"{"system":{"get_sysinfo":{"model":"HS105(US)","alias":"Desk lamp","deviceId":"device-1","sw_ver":"1.5.6","relay_state":1,"err_code":0,"new_field":"ignored"}}}"#;
    let document = read_json(&decrypt(&encrypt(plaintext))).unwrap();
    let info = document.get("system").unwrap().get("get_sysinfo").unwrap();
    let text = |name: &str| info.get(name).unwrap().as_str().unwrap().to_owned();

    assert_eq!(
        smart_plug(
            SysInfo {
                model: text("model"),
                alias: text("alias"),
                device_id: text("deviceId"),
                sw_ver: text("sw_ver"),
                relay_state: info.get("relay_state").unwrap().as_u64().unwrap() as u8,
                err_code: info.get("err_code").unwrap().as_i64().unwrap() as i32,
                brightness: None,
                latitude: None,
                longitude: None,
            },
            v4(192, 0, 2, 1),
        ),
        Some(SmartPlug {
            address: v4(192, 0, 2, 1),
            model: "HS105(US)".to_owned(),
            alias: "Desk lamp".to_owned(),
            device_id: "device-1".to_owned(),
            software_version: "1.5.6".to_owned(),
            relay_on: true,
            brightness: None,
            latitude: None,
            longitude: None,
        })
    );
}

#[test]
fn control_commands_match_protocol_envelopes() {
    assert_eq!(
        command_request("system", "set_relay_state", object(vec![("state", Json::unsigned(1))])),
        parsed(r#"{ "system": { "set_relay_state": { "state": 1 } } }"#)
    );
    assert_eq!(
        command_request("system", "set_led_off", object(vec![("off", Json::unsigned(0))])),
        parsed(r#"{ "system": { "set_led_off": { "off": 0 } } }"#)
    );
    assert_eq!(
        command_request("system", "reboot", object(vec![("delay", Json::unsigned(3))])),
        parsed(r#"{ "system": { "reboot": { "delay": 3 } } }"#)
    );
}

#[test]
fn framed_response_is_read_exactly_and_decrypted() {
    let response = parsed(r#"{ "system": { "set_relay_state": { "err_code": 0 } } }"#);
    let frame = encode_frame(&response).unwrap();

    assert_eq!(read_frame(&frame).unwrap().document.unwrap(), response);

    let length = frame_length([frame[0], frame[1], frame[2], frame[3]]).unwrap();
    assert_eq!(length, frame.len() - 4);
    assert_eq!(frame_document(&frame[4..]).unwrap(), response);
    assert!(read_frame(&frame[..3]).is_none());
    assert!(read_frame(&frame[..frame.len() - 1]).is_none());
    let answer = echo(&response, &vec![1, 2, 3]).unwrap();
    assert_eq!((answer.document.unwrap(), answer.taken), (response, frame.len()));
    let later = object(vec![
        ("#", Json::unsigned(1)),
        ("$serde_json::private::RawValue", Json::text("[1]")),
    ]);
    assert_eq!(echo(&later, &Vec::new()).unwrap().document.unwrap(), later);
    let refused = echo(&Json::text(&"a".repeat(16_383)), &vec![1]).unwrap();
    assert!(matches!(refused.document, Err(Error::ResponseTooLarge(16_385))));
    assert_eq!(refused.taken, 4);
}

#[test]
fn command_error_retains_device_error_details() {
    let response = parsed(
        r#"{ "emeter": { "get_realtime": { "err_code": -1, "err_msg": "module not support" } } }"#,
    );
    let error = command_response(response, "emeter", "get_realtime").unwrap_err();
    assert_eq!(
        error.message(),
        "emeter.get_realtime failed with error -1: module not support"
    );
    assert!(lacks_module(&error));
    assert!(matches!(
        error,
        Error::Protocol { code: -1, message: Some(message), .. } if message == "module not support"
    ));
}

#[test]
fn scaled_energy_response_is_normalized_to_si_units() {
    let reading = parse_realtime_energy(RealtimeEnergyResponse {
        current: None,
        current_ma: number(296.0),
        voltage: None,
        voltage_mv: number(230_123.0),
        power: None,
        power_mw: number(63_499.0),
        total: None,
        total_wh: number(12_068.0),
        energy: None,
        energy_wh: None,
    })
    .unwrap();
    assert_eq!(measured(reading.current_amps), 0.296);
    assert_eq!(measured(reading.voltage_volts), 230.123);
    assert_eq!(measured(reading.power_watts), 63.499);
    assert_eq!(measured(reading.total_kwh), 12.068);
}

#[test]
fn energy_history_accepts_kwh_and_wh_firmware_formats() {
    let days = parse_daily_energy(&vec![
        DayStatistic { year: 2026, month: 8, day: 1, energy: number(0.026), energy_wh: None },
        DayStatistic { year: 2026, month: 8, day: 2, energy: None, energy_wh: number(109.0) },
    ])
    .unwrap();
    assert_eq!(
        days,
        vec![
            DailyEnergy { year: 2026, month: 8, day: 1, energy_kwh: Measure::Whole(quantity(0.026)) },
            DailyEnergy {
                year: 2026,
                month: 8,
                day: 2,
                energy_kwh: Measure::Thousandths(quantity(109.0)),
            },
        ]
    );
    assert_eq!(measured(days[0].energy_kwh), 0.026);
    assert_eq!(measured(days[1].energy_kwh), 0.109);
    let months = parse_monthly_energy(&vec![MonthStatistic {
        year: 2026,
        month: 8,
        energy: None,
        energy_wh: number(1_582.0),
    }])
    .unwrap();
    assert_eq!(
        months,
        vec![MonthlyEnergy {
            year: 2026,
            month: 8,
            energy_kwh: Measure::Thousandths(quantity(1_582.0)),
        }]
    );
    assert_eq!(measured(months[0].energy_kwh), 1.582);
}

#[test]
fn energy_answers_that_lack_a_measurement_are_refused() {
    let full = RealtimeEnergyResponse {
        current: number(1.0),
        current_ma: number(9.0),
        voltage: number(2.0),
        voltage_mv: None,
        power: number(3.0),
        power_mw: None,
        total: None,
        total_wh: None,
        energy: number(4.0),
        energy_wh: None,
    };
    let whole = |value: f64| Measure::Whole(quantity(value));
    assert_eq!(
        parse_realtime_energy(full).unwrap(),
        EnergyReading {
            current_amps: whole(1.0),
            voltage_volts: whole(2.0),
            power_watts: whole(3.0),
            total_kwh: whole(4.0),
        }
    );
    let omitted = |response: RealtimeEnergyResponse| parse_realtime_energy(response).unwrap_err().message();
    assert_eq!(
        omitted(RealtimeEnergyResponse { current: None, current_ma: None, ..full }),
        "invalid response: response omitted current"
    );
    assert_eq!(
        omitted(RealtimeEnergyResponse { voltage: None, power: None, ..full }),
        "invalid response: response omitted voltage"
    );
    assert_eq!(
        omitted(RealtimeEnergyResponse { power: None, ..full }),
        "invalid response: response omitted power"
    );
    assert_eq!(
        omitted(RealtimeEnergyResponse { energy: None, ..full }),
        "invalid response: response omitted total energy"
    );
    assert!(matches!(
        parse_daily_energy(&vec![DayStatistic { year: 2026, month: 1, day: 1, energy: None, energy_wh: None }]),
        Err(Error::InvalidResponse(text)) if text == "response omitted daily energy"
    ));
    assert!(matches!(
        parse_monthly_energy(&vec![MonthStatistic { year: 2026, month: 1, energy: None, energy_wh: None }]),
        Err(Error::InvalidResponse(text)) if text == "response omitted monthly energy"
    ));
    assert_eq!(normalized_value(None, number(5.0), "x").unwrap(), Measure::Thousandths(quantity(5.0)));
}

#[test]
fn weekdays_are_sent_as_numbers() {
    assert_eq!(
        weekday_flags([true, false, false, true, true, false, false]),
        [1, 0, 0, 1, 1, 0, 0]
    );
}

#[test]
fn rule_answers_keep_ids_and_unknown_members() {
    let document = parsed(
        r#"{
            "enable": 1,
            "version": 2,
            "rule_list": [{
                "id": "opaque-id", "name": "turn on", "enable": 1,
                "delay": 1800, "act": 1, "firmware_field": "retained"
            }]
        }"#,
    );
    let rules = match document.get("rule_list").unwrap() {
        Json::Array(items) => items,
        _ => panic!("rules are a list"),
    };
    let rule = &rules[0];
    let response = rule_set(
        document.get("enable").unwrap().as_u64().unwrap() as u8,
        Some(document.get("version").unwrap().as_u64().unwrap() as u8),
        vec![CountdownRule {
            id: added_rule_id(rule),
            name: rule.get("name").unwrap().as_str().unwrap().to_owned(),
            enabled: rule.get("enable").unwrap().as_u64() != Some(0),
            delay: rule.get("delay").unwrap().as_u64().unwrap(),
            turn_on: rule.get("act").unwrap().as_u64() != Some(0),
            extra: vec![Member {
                name: "firmware_field".to_owned(),
                value: rule.get("firmware_field").unwrap().duplicate(),
            }],
        }],
    );
    assert!(response.enabled);
    assert_eq!(response.version, Some(2));
    assert_eq!(response.rules[0].id.as_deref(), Some("opaque-id"));
    assert_eq!(response.rules[0].extra[0].value, Json::text("retained"));
    assert!(!rule_set::<CountdownRule>(0, None, Vec::new()).enabled);
}

#[test]
fn weekday_lists_need_seven_entries() {
    assert_eq!(
        weekdays_of(&vec![0, 1, 2, 0, 0, 0, 255]),
        Some([false, true, true, false, false, false, true])
    );
    assert_eq!(weekdays_of(&vec![1; 6]), None);
    assert_eq!(weekdays_of(&vec![1; 8]), None);
}

#[test]
fn editing_rule_without_id_is_rejected() {
    assert!(matches!(require_rule_id(&None), Err(Error::InvalidInput(_))));
    assert!(matches!(require_rule_id(&Some(String::new())), Err(Error::InvalidInput(_))));
    assert_eq!(require_rule_id(&Some("a".to_owned())).unwrap(), "a");
}

#[test]
fn network_and_cloud_answers_keep_unknown_members() {
    let document = parsed(
        r#"{ "ap_list": [{ "ssid": "network", "key_type": 3, "channel": 6, "future_field": true }] }"#,
    );
    let list = match document.get("ap_list").unwrap() {
        Json::Array(items) => items,
        _ => panic!("access points are a list"),
    };
    let point = AccessPoint {
        ssid: list[0].get("ssid").unwrap().as_str().unwrap().to_owned(),
        key_type: list[0].get("key_type").unwrap().as_u64().map(|value| value as u8),
        cipher_type: None,
        channel: list[0].get("channel").unwrap().as_u64().map(|value| value as u8),
        signal_level: None,
        bssid: None,
        extra: vec![Member {
            name: "future_field".to_owned(),
            value: list[0].get("future_field").unwrap().duplicate(),
        }],
    };
    assert_eq!(point.ssid, "network");
    assert_eq!(point.extra[0].value, Json::Bool(true));

    let cloud = cloud_info(
        Some(1),
        Some(0),
        Some("devs.tplinkcloud.com".to_owned()),
        None,
        vec![Member { name: "tcspStatus".to_owned(), value: Json::unsigned(1) }],
    );
    assert_eq!(cloud.bound, Some(true));
    assert_eq!(cloud.connected, Some(false));
    assert_eq!(cloud.extra[0].value, Json::unsigned(1));
    assert_eq!(cloud_info(None, Some(7), None, None, Vec::new()).bound, None);
}

#[test]
fn provisioning_cloud_and_reset_commands_match_protocol_envelopes() {
    assert_eq!(
        command_request(
            "netif",
            "set_stainfo",
            object(vec![
                ("key_type", Json::unsigned(3)),
                ("password", Json::text("secret")),
                ("ssid", Json::text("wifi")),
            ])
        ),
        parsed(
            r#"{ "netif": { "set_stainfo": { "ssid": "wifi", "password": "secret", "key_type": 3 } } }"#
        )
    );
    assert_eq!(
        command_request("cnCloud", "unbind", Json::empty()),
        parsed(r#"{ "cnCloud": { "unbind": {} } }"#)
    );
    assert_eq!(
        command_request("system", "reset", object(vec![("delay", Json::unsigned(1))])),
        parsed(r#"{ "system": { "reset": { "delay": 1 } } }"#)
    );
}

#[test]
fn clients_send_provisioning_cloud_and_reset_commands() {
    let client = SmartHomeClient::new();
    let address = v4(192, 0, 2, 1);
    assert_eq!(
        client.configure_wifi(address, "wifi", "secret", 3).unwrap().document(),
        parsed(
            r#"{ "netif": { "set_stainfo": { "ssid": "wifi", "password": "secret", "key_type": 3 } } }"#
        )
    );
    assert_eq!(
        client.unbind_cloud(address).document(),
        parsed(r#"{ "cnCloud": { "unbind": {} } }"#)
    );
    assert_eq!(
        client
            .factory_reset(
                address,
                FactoryResetConfirmation::EraseAllSettings,
                Duration::from_secs(1),
            )
            .document(),
        parsed(r#"{ "system": { "reset": { "delay": 1 } } }"#)
    );
}

#[test]
fn every_request_asks_for_its_command() {
    let client = SmartHomeClient::with_timeout(Duration::from_millis(1_500));
    let address = v4(192, 0, 2, 7);
    let rule = || object(vec![("name", Json::text("a"))]);
    let id = Some("r".to_owned());
    let text = |request: smarthome::client::Request| {
        assert_eq!(request.address, address);
        assert_eq!(request.timeout, Duration::from_millis(1_500));
        written(&request.document())
    };
    let cases = vec![
        (client.get_sysinfo(address), r#"{"system":{"get_sysinfo":{}}}"#),
        (client.set_relay(address, true), r#"{"system":{"set_relay_state":{"state":1}}}"#),
        (client.set_relay(address, false), r#"{"system":{"set_relay_state":{"state":0}}}"#),
        (client.set_led(address, true), r#"{"system":{"set_led_off":{"off":0}}}"#),
        (client.reboot(address, Duration::from_millis(2_900)), r#"{"system":{"reboot":{"delay":2}}}"#),
        (client.get_realtime_energy(address), r#"{"emeter":{"get_realtime":{}}}"#),
        (
            client.get_daily_energy(address, 2026, 12).unwrap(),
            r#"{"emeter":{"get_daystat":{"month":12,"year":2026}}}"#,
        ),
        (client.get_monthly_energy(address, 2026), r#"{"emeter":{"get_monthstat":{"year":2026}}}"#),
        (client.erase_energy_statistics(address), r#"{"emeter":{"erase_emeter_stat":{}}}"#),
        (client.get_countdown_rules(address), r#"{"count_down":{"get_rules":{}}}"#),
        (client.add_countdown_rule(address, rule()), r#"{"count_down":{"add_rule":{"name":"a"}}}"#),
        (
            client.edit_countdown_rule(address, &id, rule()).unwrap(),
            r#"{"count_down":{"edit_rule":{"name":"a"}}}"#,
        ),
        (
            client.delete_countdown_rule(address, "r").unwrap(),
            r#"{"count_down":{"delete_rule":{"id":"r"}}}"#,
        ),
        (client.delete_all_countdown_rules(address), r#"{"count_down":{"delete_all_rules":{}}}"#),
        (client.get_schedule_rules(address), r#"{"schedule":{"get_rules":{}}}"#),
        (client.add_schedule_rule(address, rule()), r#"{"schedule":{"add_rule":{"name":"a"}}}"#),
        (
            client.edit_schedule_rule(address, &id, rule()).unwrap(),
            r#"{"schedule":{"edit_rule":{"name":"a"}}}"#,
        ),
        (
            client.delete_schedule_rule(address, "r").unwrap(),
            r#"{"schedule":{"delete_rule":{"id":"r"}}}"#,
        ),
        (client.delete_all_schedule_rules(address), r#"{"schedule":{"delete_all_rules":{}}}"#),
        (
            client.set_schedules_enabled(address, true),
            r#"{"schedule":{"set_overall_enable":{"enable":1}}}"#,
        ),
        (client.get_next_schedule_action(address), r#"{"schedule":{"get_next_action":{}}}"#),
        (
            client.erase_schedule_runtime_statistics(address),
            r#"{"schedule":{"erase_runtime_stat":{}}}"#,
        ),
        (client.get_anti_theft_rules(address), r#"{"anti_theft":{"get_rules":{}}}"#),
        (client.add_anti_theft_rule(address, rule()), r#"{"anti_theft":{"add_rule":{"name":"a"}}}"#),
        (
            client.edit_anti_theft_rule(address, &id, rule()).unwrap(),
            r#"{"anti_theft":{"edit_rule":{"name":"a"}}}"#,
        ),
        (
            client.delete_anti_theft_rule(address, "r").unwrap(),
            r#"{"anti_theft":{"delete_rule":{"id":"r"}}}"#,
        ),
        (client.delete_all_anti_theft_rules(address), r#"{"anti_theft":{"delete_all_rules":{}}}"#),
        (
            client.set_anti_theft_enabled(address, false),
            r#"{"anti_theft":{"set_overall_enable":{"enable":0}}}"#,
        ),
        (client.scan_wifi(address, true), r#"{"netif":{"get_scaninfo":{"refresh":1}}}"#),
        (
            client.scan_wifi(address, false).onboarding(),
            r#"{"smartlife.iot.common.softaponboarding":{"get_scaninfo":{"refresh":0}}}"#,
        ),
        (client.get_cloud_info(address), r#"{"cnCloud":{"get_info":{}}}"#),
        (client.get_cloud_firmware_list(address), r#"{"cnCloud":{"get_intl_fw_list":{}}}"#),
        (
            client.set_cloud_server(address, "s").unwrap(),
            r#"{"cnCloud":{"set_server_url":{"server":"s"}}}"#,
        ),
        (
            client.bind_cloud(address, "u", "p"),
            r#"{"cnCloud":{"bind":{"password":"p","username":"u"}}}"#,
        ),
        (
            client.set_brightness(address, 70),
            r#"{"smartlife.iot.dimmer":{"set_brightness":{"brightness":70}}}"#,
        ),
    ];
    for (request, expected) in cases {
        assert_eq!(text(request), expected);
    }
}

#[test]
fn senseless_requests_are_refused() {
    let client = SmartHomeClient::default();
    let address = v4(192, 0, 2, 7);
    for month in [0, 13] {
        let error = client.get_daily_energy(address, 2026, month).unwrap_err();
        assert_eq!(
            error.message(),
            format!("invalid input: month must be between 1 and 12, got {month}")
        );
    }
    assert_eq!(
        client.configure_wifi(address, "", "secret", 3).unwrap_err().message(),
        "invalid input: Wi-Fi SSID cannot be empty"
    );
    assert_eq!(
        client.set_cloud_server(address, "").unwrap_err().message(),
        "invalid input: cloud server cannot be empty"
    );
    assert_eq!(
        client.delete_schedule_rule(address, "").unwrap_err().message(),
        "invalid input: rule ID cannot be empty"
    );
    assert_eq!(
        client.edit_schedule_rule(address, &None, Json::empty()).unwrap_err().message(),
        "invalid input: editing a rule requires its device ID"
    );
    assert_eq!(SmartHomeClient::new().get_sysinfo(address).timeout, Duration::from_secs(5));
}

#[test]
fn answers_that_omit_the_module_or_the_command_are_refused() {
    let answer = |text: &str| command_response(parsed(text), "system", "reboot");
    assert_eq!(
        answer("{}").unwrap_err().message(),
        "invalid response: response omitted module system"
    );
    assert_eq!(
        answer(r#"{"system":{}}"#).unwrap_err().message(),
        "invalid response: response omitted command system.reboot"
    );
    assert_eq!(
        answer(r#"{"system":{"err_code":-3,"reboot":{}}}"#).unwrap_err().message(),
        "system.reboot failed with error -3"
    );
    assert_eq!(answer(r#"{"system":{"reboot":{"err_code":0}}}"#).unwrap(), parsed(r#"{"err_code":0}"#));
    assert!(!lacks_module(&answer(r#"{"system":{"err_code":-3}}"#).unwrap_err()));
}

#[test]
fn frames_that_are_too_long_or_unreadable_are_refused() {
    assert_eq!(frame_length([0, 0, 0x40, 0]).unwrap(), 16_384);
    assert!(matches!(frame_length([0, 0, 0x40, 1]), Err(Error::ResponseTooLarge(16_385))));
    assert_eq!(
        frame_length([1, 2, 3, 4]).unwrap_err().message(),
        "response length 16909060 exceeds protocol limit"
    );
    let error = frame_document(&encrypt(b"{")).unwrap_err();
    assert!(matches!(error, Error::Json(_)));
    assert!(!error.message().is_empty());
    let failure = Error::from(std::io::Error::new(std::io::ErrorKind::TimedOut, "too slow"));
    assert_eq!(failure.message(), "too slow");
    assert!(matches!(failure, Error::Io(_)));
}

#[test]
fn the_cipher_goes_both_ways() {
    let text: Vec<u8> = (0..=255).collect();
    assert_eq!(decrypt(&encrypt(&text)), text);
    assert_eq!(encrypt(&decrypt(&text)), text);
    assert_eq!(encrypt(&[1, 2]), [170, 168]);
    assert_eq!(decrypt(&[170, 168]), [1, 2]);
}

#[test]
fn documents_keep_their_members_in_order() {
    let unordered = object(vec![("b", Json::unsigned(1)), ("a", Json::Null), ("b", Json::signed(-2))]);
    assert_eq!(written(&unordered), r#"{"a":null,"b":-2}"#);
    let put = Json::empty()
        .put("b", Json::Bool(true))
        .put("a", Json::text("x"))
        .put("b", Json::Bool(false))
        .put("c", Json::Null);
    assert_eq!(written(&put), r#"{"a":"x","b":false,"c":null}"#);
    let numbers = parsed("[1, -1, 1.5, 18446744073709551615, 1e3]");
    assert_eq!(
        numbers,
        Json::Array(vec![
            Json::Number(Number::Unsigned(1)),
            Json::Number(Number::Negative(-1)),
            Json::Number(Number::Decimal("1.5".to_owned())),
            Json::Number(Number::Unsigned(u64::MAX)),
            Json::Number(Number::Decimal("1000.0".to_owned())),
        ])
    );
    assert_eq!(written(&numbers), "[1,-1,1.5,18446744073709551615,1000.0]");
    assert!(write_json(&Json::Number(Number::Decimal("x".to_owned()))).is_err());
    assert_eq!(numbers.as_i64(), None);
    assert_eq!(Json::unsigned(u64::MAX).as_i64(), None);
    assert_eq!(Json::signed(-5).as_i64(), Some(-5));
    assert_eq!(Json::signed(-5).as_u64(), None);
    let value = value_of(&numbers).unwrap();
    assert!(value.is_array());
    assert_eq!(json_of(value), numbers);
}

#[test]
fn raw_requests_are_framed() {
    let client = SmartHomeClient::new();
    let address = v4(192, 0, 2, 9);
    let exchange = client.query_raw_json(address, r#" {"a": [1]} "#).unwrap();
    assert_eq!(exchange.address, address);
    assert_eq!(exchange.timeout, Duration::from_secs(5));
    assert_eq!(&exchange.frame[..4], &[0, 0, 0, 9]);
    assert_eq!(decrypt(&exchange.frame[4..]), br#"{"a":[1]}"#);
    assert!(matches!(client.query_raw_json(address, "{"), Err(Error::Json(_))));
    let same = client.query_raw(address, &parsed(r#"{"a":[1]}"#)).unwrap();
    assert_eq!(same.frame, exchange.frame);
}

fn found(address: Address, device_id: &str) -> SmartPlug {
    SmartPlug {
        address,
        model: "HS105(US)".to_owned(),
        alias: "Lamp".to_owned(),
        device_id: device_id.to_owned(),
        software_version: "1.5.6".to_owned(),
        relay_on: false,
        brightness: None,
        latitude: None,
        longitude: None,
    }
}

#[test]
fn the_inventory_is_sorted_and_lists_an_address_once() {
    let six = Address { v6: true, bits: 1 };
    let plugs = inventory(vec![
        found(six, "six"),
        found(v4(192, 0, 2, 9), "nine"),
        found(v4(192, 0, 2, 1), "one"),
        found(v4(192, 0, 2, 9), "again"),
    ]);
    let names: Vec<&str> = plugs.iter().map(|plug| plug.device_id.as_str()).collect();
    assert_eq!(names, ["one", "nine", "six"]);
    assert_eq!(
        sorted_addresses(&vec![six, v4(10, 0, 0, 2), v4(10, 0, 0, 1), six, v4(10, 0, 0, 2)]),
        vec![v4(10, 0, 0, 1), v4(10, 0, 0, 2), six]
    );
}

#[test]
fn an_unsuccessful_system_answer_is_no_plug() {
    let info = SysInfo {
        model: "m".to_owned(),
        alias: "a".to_owned(),
        device_id: "d".to_owned(),
        sw_ver: "v".to_owned(),
        relay_state: 0,
        err_code: -1,
        brightness: Some(3),
        latitude: None,
        longitude: None,
    };
    assert_eq!(smart_plug(info.clone(), v4(1, 2, 3, 4)), None);
    assert_eq!(
        parse_sysinfo(info, v4(1, 2, 3, 4)).unwrap_err().message(),
        "system.get_sysinfo failed with error -1: device returned an unsuccessful system response"
    );
}
