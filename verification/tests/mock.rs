use smarthome::client::SmartHomeClient;
use smarthome::client::command_response;
use smarthome::json::{read_json, write_json, Json};
use smarthome::mock::{error_response, find_outlet, groups, mock_outlet, mock_outlets, request_command, respond};
use smarthome::plug::{Address, Degrees};
use smarthome::quantity::Quantity;

fn parsed(text: &str) -> Json {
    read_json(text.as_bytes()).unwrap()
}

fn written(json: &Json) -> String {
    String::from_utf8(write_json(json).unwrap()).unwrap()
}

fn at<'a>(json: &'a Json, names: &[&str]) -> &'a Json {
    names.iter().fold(json, |part, name| part.get(name).unwrap())
}

#[test]
fn relay_and_countdown_commands_update_mock_state() {
    let mut outlet = mock_outlet(2, "Test", "HS105(US)", false, None);
    let relay = respond(
        &mut outlet,
        &parsed(r#"{ "system": { "set_relay_state": { "state": 1 } } }"#),
    );
    assert_eq!(at(&relay, &["system", "set_relay_state", "err_code"]).as_i64(), Some(0));
    assert!(outlet.plug.relay_on);

    let added = respond(
        &mut outlet,
        &parsed(
            r#"{ "count_down": { "add_rule": {
                "name": "Timer", "enable": 1, "delay": 300, "act": 0
            } } }"#,
        ),
    );
    assert_eq!(
        at(&added, &["count_down", "add_rule", "id"]).as_str(),
        Some("mock-countdown-1")
    );
    let rules = respond(&mut outlet, &parsed(r#"{ "count_down": { "get_rules": {} } }"#));
    match at(&rules, &["count_down", "get_rules", "rule_list"]) {
        Json::Array(rules) => assert_eq!(rules.len(), 1),
        _ => panic!("rules are a list"),
    }
}

#[test]
fn brightness_command_updates_mock_dimmer() {
    let mut outlet = mock_outlet(2, "Test dimmer", "HS220(US)", true, Some(40));
    let response = respond(
        &mut outlet,
        &parsed(r#"{ "smartlife.iot.dimmer": { "set_brightness": { "brightness": 75 } } }"#),
    );

    assert_eq!(
        at(&response, &["smartlife.iot.dimmer", "set_brightness", "err_code"]).as_i64(),
        Some(0)
    );
    assert_eq!(outlet.plug.brightness, Some(75));
}

#[test]
fn mock_inventory_includes_a_group() {
    assert_eq!(
        groups(),
        vec![(
            "Living room",
            vec!["mock-outlet-2".to_owned(), "mock-outlet-4".to_owned()]
        )]
    );
}

#[test]
fn mock_outlets_describe_themselves() {
    let mut outlets = mock_outlets();
    let question = SmartHomeClient::new()
        .get_sysinfo(Address { v6: false, bits: 0x7f00_0002 })
        .document();
    assert_eq!(
        written(&respond(&mut outlets[0], &question)),
        concat_text(&[
            r#"{"system":{"get_sysinfo":{"alias":"Living room lamp","brightness":65,"#,
            r#""deviceId":"mock-outlet-2","err_code":0,"latitude":46.4917,"longitude":-80.993,"#,
            r#""model":"HS220(US)","relay_state":1,"sw_ver":"1.0.0-mock"}}}"#,
        ])
    );
    let place = outlets[0].plug.clone();
    assert_eq!(place.latitude.unwrap().exact.bits, 46.4917_f64.to_bits());
    assert_eq!(place.longitude.unwrap().exact.bits, (-80.9930_f64).to_bits());
    let degrees = |exact: f64, text: &str, ten_thousandths: i32| Degrees {
        exact: Quantity { bits: exact.to_bits() },
        text: text.to_owned(),
        ten_thousandths,
    };
    outlets[1].plug.latitude = Some(degrees(46.410612345, "46.410612345", 464_106));
    outlets[1].plug.longitude = Some(degrees(f64::INFINITY, "null", i32::MAX));
    let answer = command_response(respond(&mut outlets[1], &question), "system", "get_sysinfo").unwrap();
    assert_eq!(written(answer.get("latitude").unwrap()), "46.410612345");
    assert_eq!(answer.get("longitude"), Some(&Json::Null));
    outlets[1].plug.latitude = Some(degrees(-10.0, "-10.0", -100_000));
    outlets[1].plug.longitude = None;
    let answer = command_response(respond(&mut outlets[1], &question), "system", "get_sysinfo").unwrap();
    assert_eq!(written(answer.get("latitude").unwrap()), "-10.0");
    assert_eq!(answer.get("longitude"), Some(&Json::Null));
    assert_eq!(answer.get("brightness"), Some(&Json::Null));
    assert_eq!(answer.get("relay_state"), Some(&Json::unsigned(0)));
    assert_eq!(find_outlet(&outlets, Address { v6: false, bits: 0x7f00_0004 }), Some(2));
    assert_eq!(find_outlet(&outlets, Address { v6: true, bits: 0x7f00_0004 }), None);
}

fn concat_text(parts: &[&str]) -> String {
    parts.concat()
}

#[test]
fn a_switched_relay_is_reported() {
    let client = SmartHomeClient::new();
    let address = Address { v6: false, bits: 0x7f00_0003 };
    let mut outlet = mock_outlet(3, "Coffee maker", "HS103(US)", false, None);
    for on in [true, false] {
        let done = respond(&mut outlet, &client.set_relay(address, on).document());
        assert!(command_response(done, "system", "set_relay_state").is_ok());
        let info = command_response(
            respond(&mut outlet, &client.get_sysinfo(address).document()),
            "system",
            "get_sysinfo",
        )
        .unwrap();
        assert_eq!(info.get("relay_state").unwrap().as_u64(), Some(u64::from(on)));
    }
    respond(&mut outlet, &parsed(r#"{"system":{"set_relay_state":{"state":"1"}}}"#));
    assert!(!outlet.plug.relay_on);
}

#[test]
fn deleting_a_countdown_undoes_adding_it() {
    let client = SmartHomeClient::new();
    let address = Address { v6: false, bits: 0x7f00_0003 };
    let mut outlet = mock_outlet(3, "Coffee maker", "HS103(US)", false, None);
    let add = |name: &str| client.add_countdown_rule(address, Json::empty().with("name", Json::text(name))).document();
    respond(&mut outlet, &add("one"));
    respond(&mut outlet, &add("two"));
    assert_eq!(outlet.next_rule_id, 3);
    assert_eq!(written(&outlet.countdown_rules[1]), r#"{"id":"mock-countdown-2","name":"two"}"#);
    respond(&mut outlet, &client.delete_countdown_rule(address, "mock-countdown-2").unwrap().document());
    assert_eq!(outlet.countdown_rules.len(), 1);
    respond(&mut outlet, &client.delete_countdown_rule(address, "other").unwrap().document());
    assert_eq!(outlet.countdown_rules.len(), 1);
    respond(&mut outlet, &client.delete_all_countdown_rules(address).document());
    assert!(outlet.countdown_rules.is_empty());
    let mut patio = mock_outlet(4, "Patio lights", "KP115(US)", true, None);
    let rules = respond(&mut patio, &client.get_schedule_rules(address).document());
    assert_eq!(
        written(&rules),
        concat_text(&[
            r#"{"schedule":{"get_rules":{"enable":1,"err_code":0,"rule_list":[{"enable":1,"#,
            r#""etime_opt":-1,"id":"mock-schedule-1","name":"Patio at sunset","repeat":1,"sact":1,"#,
            r#""smin":0,"soffset":-15,"stime_opt":2,"wday":[1,1,1,1,1,1,1]}],"version":2}}}"#,
        ])
    );
    respond(&mut patio, &client.delete_schedule_rule(address, "mock-schedule-1").unwrap().document());
    assert!(patio.schedule_rules.is_empty());
}

#[test]
fn unknown_commands_and_malformed_requests_fail() {
    let mut outlet = mock_outlet(3, "Coffee maker", "HS103(US)", false, None);
    let refused = |outlet: &mut smarthome::mock::Outlet, text: &str| written(&respond(outlet, &parsed(text)));
    assert_eq!(
        refused(&mut outlet, r#"{"smartlife.iot.dimmer":{"set_brightness":{"brightness":5}}}"#),
        r#"{"smartlife.iot.dimmer":{"set_brightness":{"err_code":-1,"err_msg":"command not implemented by mock outlet"}}}"#
    );
    for text in ["{}", "[]", r#"{"system":{}}"#, r#"{"system":1}"#] {
        assert_eq!(
            refused(&mut outlet, text),
            r#"{"system":{"err_code":-1,"err_msg":"invalid request"}}"#
        );
    }
    assert_eq!(
        written(&error_response(&parsed(r#"{"a":{"b":{}}}"#), "unknown mock outlet address")),
        r#"{"a":{"b":{"err_code":-1,"err_msg":"unknown mock outlet address"}}}"#
    );
    assert_eq!(
        written(&error_response(&Json::Null, "no")),
        r#"{"system":{"err_code":-1,"err_msg":"no"}}"#
    );
    let request = parsed(r#"{"b":{"d":1,"c":2},"a":{"z":3}}"#);
    assert_eq!(request_command(&request), Some(("a", "z", &Json::unsigned(3))));
    let mut dimmer = mock_outlet(2, "Lamp", "HS220(US)", true, Some(1));
    refused(&mut dimmer, r#"{"smartlife.iot.dimmer":{"set_brightness":{"brightness":256}}}"#);
    assert_eq!(dimmer.plug.brightness, None);
}
