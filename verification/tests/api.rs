use smarthome::api::{
    authorize, constant_time_eq, decode_token, generated_request_id, info, is_request_id,
    request_id, require_json, requested_brightness, ApiError, Auth,
};
use smarthome::control::{
    Action, DeviceResult, DeviceRun, Event, FailureCode, Outcome, Requested, StoredDevice,
};
use smarthome::group::DeviceGroup;
use smarthome::inventory::{
    build_inventory, fresh_states, inventory_group, probe_status, require_inventory_size, require_limits,
    DeviceStatus, ProbeStatus,
};
use smarthome::json::{write_json, Json};
use smarthome::plug::{Address, SmartPlug};
use smarthome::report::{
    find_device, group_plan, mutation_response, relay_state, requested_group, require_group_size,
    sorted_results,
};

fn v4(last: u8) -> Address {
    Address { v6: false, bits: u32::from_be_bytes([192, 0, 2, last]) as u128 }
}

fn plug(last: u8, id: &str, relay_on: bool, brightness: Option<u8>) -> SmartPlug {
    SmartPlug {
        address: v4(last),
        model: "HS220(US)".to_owned(),
        alias: format!("Device {id}"),
        device_id: id.to_owned(),
        software_version: "1.0".to_owned(),
        relay_on,
        brightness,
        latitude: None,
        longitude: None,
    }
}

fn stored(device: SmartPlug) -> StoredDevice {
    StoredDevice { device, last_seen_at: 7 }
}

fn group(id: u64, name: &str, members: &[&str]) -> DeviceGroup {
    DeviceGroup {
        id,
        name: name.to_owned(),
        device_ids: members.iter().map(|member| (*member).to_owned()).collect(),
    }
}

fn at<'a>(json: &'a Json, names: &[&str]) -> &'a Json {
    names.iter().fold(json, |part, name| part.get(name).unwrap())
}

fn items(json: &Json) -> &Vec<Json> {
    match json {
        Json::Array(items) => items,
        _ => panic!("a list is expected"),
    }
}

fn names(json: &Json) -> Vec<&str> {
    match json {
        Json::Object(members) => members.iter().map(|member| member.name.as_str()).collect(),
        _ => panic!("an object is expected"),
    }
}

fn written(json: &Json) -> String {
    String::from_utf8(write_json(json).unwrap()).unwrap()
}

/// Devices that answer from memory, and count the commands that reach them.
struct Devices {
    devices: Vec<SmartPlug>,
    unreachable: Vec<Address>,
    storing: bool,
    commands: usize,
    stored: Vec<SmartPlug>,
}

impl Devices {
    fn new(devices: Vec<SmartPlug>) -> Devices {
        Devices { devices, unreachable: Vec::new(), storing: true, commands: 0, stored: Vec::new() }
    }

    fn probe(&self, address: Address) -> Option<SmartPlug> {
        if self.unreachable.contains(&address) {
            return None;
        }
        self.devices.iter().find(|device| device.address == address).cloned()
    }

    fn command(&mut self, address: Address, requested: Requested) -> bool {
        self.commands += 1;
        match self.devices.iter_mut().find(|device| device.address == address) {
            Some(device) => {
                match requested {
                    Requested::Relay(on) => device.relay_on = on,
                    Requested::Brightness(level) => device.brightness = Some(level),
                }
                true
            }
            None => false,
        }
    }

    fn run(&mut self, device: &StoredDevice, requested: Requested) -> Result<DeviceResult, ApiError> {
        let mut run = DeviceRun::begin("request", device, requested);
        let mut action = run.advance(Event::Probed(self.probe(run.address)));
        loop {
            let event = match action {
                Action::Store(plug) => {
                    self.stored.push(plug);
                    Event::Stored(self.storing)
                }
                Action::Command => Event::Commanded(self.command(run.address, run.requested)),
                Action::ReadBack => Event::ReadBack(self.probe(run.address), 42),
                Action::Finish(result) => return Ok(result),
                Action::Refuse(error) => return Err(error),
            };
            action = run.advance(event);
        }
    }
}

#[test]
fn tokens_require_lowercase_fixed_length_hex() {
    assert!(decode_token(&"ab".repeat(32)).is_some());
    assert!(decode_token(&"AB".repeat(32)).is_none());
    assert!(decode_token("ab").is_none());
    assert!(constant_time_eq(&[7; 32], &[7; 32]));
    assert!(!constant_time_eq(&[7; 32], &[8; 32]));
}

#[test]
fn group_state_requires_complete_fresh_observation() {
    let lights = group(7, "Lights", &["on", "missing"]);
    let statuses = vec![DeviceStatus {
        device_id: "on".to_owned(),
        status: ProbeStatus::Online(SmartPlug {
            address: v4(1),
            model: "HS100".to_owned(),
            alias: "One".to_owned(),
            device_id: "on".to_owned(),
            software_version: "1".to_owned(),
            relay_on: true,
            brightness: None,
            latitude: None,
            longitude: None,
        }),
    }];
    let view = inventory_group(lights, &statuses, 42);
    assert_eq!(view.availability, "partial");
    assert_eq!(view.state.relay, "unknown");
    assert_eq!(view.members.unknown, 1);
}

#[test]
fn tokens_come_out_of_files_with_or_without_a_line_end() {
    let token = "0f".repeat(32);
    for end in ["", "\n", "\r\n"] {
        assert_eq!(Auth::from_file(&format!("{token}{end}")), Ok(Auth::Enabled([0x0f; 32])));
    }
    for contents in [
        "",
        "\n",
        "0f",
        &format!("{token}\n\n"),
        &format!("{token}\r"),
        &format!("{token}\n\r"),
        &format!(" {token}"),
    ] {
        assert_eq!(
            Auth::from_file(contents),
            Err("PEBBLE_API_TOKEN_FILE must contain exactly 64 lowercase hex characters".to_owned())
        );
    }
    assert_eq!(decode_token(&"é".repeat(32)), None);
}

#[test]
fn requests_without_the_token_are_refused() {
    let disabled = authorize(&Auth::Disabled, None, "id").unwrap_err();
    assert_eq!((disabled.status, disabled.code), (503, "api_disabled"));
    assert_eq!(
        written(&disabled.body()),
        [
            r#"{"error":{"code":"api_disabled","details":null,"execution":"not_started","#,
            r#""message":"The Pebble API is not configured.","retryable":false},"request_id":"id"}"#,
        ]
        .concat()
    );
    let enabled = Auth::Enabled([0xab; 32]);
    let bearer = format!("Bearer {}", "ab".repeat(32));
    assert!(authorize(&enabled, Some(&bearer), "id").is_ok());
    let zeros = format!("Bearer {}", "00".repeat(32));
    for header in [None, Some(zeros.as_str()), Some("Bearer "), Some(&bearer[7..]), Some("bearer x")] {
        let error = authorize(&enabled, header, "id").unwrap_err();
        assert_eq!((error.status, error.code, error.execution), (401, "unauthorized", "not_started"));
    }
}

#[test]
fn request_ids_are_short_and_plain() {
    assert!(is_request_id("a-Z_9"));
    assert!(is_request_id(&"x".repeat(64)));
    for id in ["", "a b", "ä", &"x".repeat(65)] {
        assert!(!is_request_id(id));
    }
    assert_eq!(generated_request_id(12, 3), "srv-12-3");
    assert_eq!(generated_request_id(-1, 0), "srv--1-0");
    assert!(is_request_id(&generated_request_id(i64::MAX, u64::MAX)));
    assert_eq!(request_id(Some("a-Z_9"), 12, 3), "a-Z_9");
    for supplied in [None, Some(""), Some("a b"), Some("ä")] {
        assert_eq!(request_id(supplied, 12, 3), "srv-12-3");
    }
    assert_ne!(generated_request_id(1, 11), generated_request_id(11, 1));
    assert_ne!(generated_request_id(1, 1), generated_request_id(1, 2));
}

#[test]
fn bodies_must_be_json() {
    assert!(require_json(Some("application/json"), "id").is_ok());
    assert!(require_json(Some("application/json; charset=utf-8"), "id").is_ok());
    for content in [None, Some("text/plain"), Some("application/json ;"), Some("application/jsonx")] {
        let error = require_json(content, "id").unwrap_err();
        assert_eq!(
            (error.status, error.code, error.message),
            (400, "invalid_request", "Content-Type must be application/json.")
        );
    }
    assert_eq!(ApiError::body_too_large("id").message, "The request body exceeds 1024 bytes.");
    assert_eq!(ApiError::invalid_json("id").code, "invalid_json");
    let busy = ApiError::busy("id");
    assert_eq!((busy.status, busy.code, busy.retryable, busy.retry_after), (429, "busy", true, true));
    assert_eq!(ApiError::internal("id").execution, "not_started");
    assert_eq!(ApiError::internal_may_have_run("id").execution, "may_have_run");
    assert_eq!(ApiError::route_not_found("id").status, 404);
    assert_eq!(ApiError::device_not_found("id").message, "The requested device was not found.");
    assert_eq!(ApiError::group_not_found("id").code, "group_not_found");
    assert_eq!(at(&info(), &["limits", "inventory_bytes"]).as_u64(), Some(1_048_576));
    assert_eq!(at(&info(), &["features", "group_brightness"]), &Json::Bool(false));
}

#[test]
fn identity_mismatch_never_actuates_the_remembered_address() {
    let remembered = stored(plug(10, "expected", false, None));
    let mut devices = Devices::new(vec![plug(10, "imposter", false, None)]);
    let result = devices.run(&remembered, Requested::Relay(true)).unwrap();
    let body = mutation_response("r", "device", "expected", Requested::Relay(true), &vec![result]);
    assert_eq!(at(&body, &["outcome"]).as_str(), Some("failed"));
    assert_eq!(items(at(&body, &["results"]))[0].get("code").unwrap().as_str(), Some("identity_mismatch"));
    assert_eq!(devices.commands, 0);
    assert!(devices.stored.is_empty());
}

#[test]
fn relay_is_read_back_and_persisted_by_stable_id() {
    let old = plug(10, "stable", false, None);
    let moved = plug(11, "stable", false, None);
    let mut remembered = vec![stored(old)];
    remembered[0] = stored(moved.clone());
    let mut devices = Devices::new(vec![moved.clone()]);
    let device = find_device(&remembered, "stable", "r").unwrap();
    let result = devices.run(&remembered[device], Requested::Relay(true)).unwrap();
    assert_eq!(result.outcome, Outcome::Confirmed);
    let body = mutation_response("r", "device", "stable", Requested::Relay(true), &vec![result]);
    assert_eq!(at(&body, &["outcome"]).as_str(), Some("confirmed"));
    assert_eq!(
        at(&items(at(&body, &["results"]))[0], &["observed", "relay"]).as_str(),
        Some("on")
    );
    assert_eq!(devices.stored.len(), 2);
    assert_eq!(devices.stored[1].address, moved.address);
    assert!(devices.stored[1].relay_on);
}

#[test]
fn runs_that_cannot_be_verified_say_so() {
    let remembered = stored(plug(11, "stable", false, None));
    let mut unreachable = Devices::new(vec![plug(11, "stable", false, None)]);
    unreachable.unreachable.push(v4(11));
    let result = unreachable.run(&remembered, Requested::Relay(true)).unwrap();
    assert_eq!((result.outcome, result.code), (Outcome::Failed, Some(FailureCode::DeviceUnreachable)));
    let mut forgetful = Devices::new(vec![plug(11, "stable", false, None)]);
    forgetful.storing = false;
    let result = forgetful.run(&remembered, Requested::Relay(true)).unwrap();
    assert_eq!((result.outcome, result.code), (Outcome::Failed, Some(FailureCode::VerificationFailed)));
    assert_eq!(forgetful.commands, 0);

    let begin = || {
        let mut run = DeviceRun::begin("r", &remembered, Requested::Relay(true));
        run.advance(Event::Probed(Some(plug(11, "stable", false, None))));
        assert!(matches!(run.advance(Event::Stored(true)), Action::Command));
        run
    };
    let finished = |action: Action| match action {
        Action::Finish(result) => (result.outcome, result.code, result.observed.is_some()),
        _ => panic!("the run should be over"),
    };
    let unknown = (Outcome::Unknown, Some(FailureCode::VerificationFailed), false);
    assert_eq!(finished(begin().advance(Event::Commanded(false))), unknown);
    let read_back = |probe: Option<SmartPlug>| {
        let mut run = begin();
        assert!(matches!(run.advance(Event::Commanded(true)), Action::ReadBack));
        let action = run.advance(Event::ReadBack(probe, 42));
        (run, action)
    };
    assert_eq!(finished(read_back(None).1), unknown);
    assert_eq!(
        finished(read_back(Some(plug(11, "other", true, None))).1),
        (Outcome::Unknown, Some(FailureCode::IdentityMismatch), false)
    );
    let (mut run, action) = read_back(Some(plug(11, "stable", false, None)));
    assert!(matches!(action, Action::Store(_)));
    assert_eq!(
        finished(run.advance(Event::Stored(true))),
        (Outcome::Failed, Some(FailureCode::StateMismatch), true)
    );
    let (mut run, _) = read_back(Some(plug(11, "stable", true, None)));
    assert_eq!(
        finished(run.advance(Event::Stored(false))),
        (Outcome::Unknown, Some(FailureCode::VerificationFailed), true)
    );
}

#[test]
fn brightness_rejects_invalid_and_unmet_prerequisites() {
    let off_dimmer = plug(20, "dimmer", false, Some(40));
    let mut devices = Devices::new(vec![off_dimmer.clone()]);
    let invalid = requested_brightness(256, "r").unwrap_err();
    assert_eq!(invalid.status, 422);
    assert_eq!(at(&invalid.body(), &["error", "code"]).as_str(), Some("invalid_brightness"));

    let brightness = requested_brightness(70, "r").unwrap();
    let relay_off = devices
        .run(&stored(off_dimmer), Requested::Brightness(brightness))
        .unwrap_err();
    assert_eq!(relay_off.status, 409);
    assert_eq!(at(&relay_off.body(), &["error", "code"]).as_str(), Some("relay_off"));
    assert_eq!(devices.commands, 0);
}

#[test]
fn inventory_preserves_offline_state_and_groups_are_honest() {
    let online = plug(30, "online", true, None);
    let offline = plug(31, "offline", false, None);
    let mut devices = Devices::new(vec![online.clone(), offline.clone()]);
    devices.unreachable.push(offline.address);
    let remembered = vec![stored(online), stored(offline)];
    let statuses: Vec<DeviceStatus> = remembered
        .iter()
        .map(|stored| DeviceStatus {
            device_id: stored.device.device_id.clone(),
            status: probe_status(&stored.device.device_id, devices.probe(stored.device.address)),
        })
        .collect();
    let groups = vec![group(1, "Mixed availability", &["online", "offline"])];
    let body = build_inventory(&remembered, groups, &statuses, 42).document();
    let offline = items(at(&body, &["devices"]))
        .iter()
        .find(|device| at(device, &["id"]).as_str() == Some("offline"))
        .unwrap();
    assert_eq!(at(offline, &["availability"]).as_str(), Some("offline"));
    assert_eq!(at(offline, &["state", "relay"]).as_str(), Some("off"));
    let group = &items(at(&body, &["groups"]))[0];
    assert_eq!(at(group, &["availability"]).as_str(), Some("partial"));
    assert_eq!(at(group, &["state", "relay"]).as_str(), Some("unknown"));
    assert_eq!(at(group, &["members", "offline"]).as_u64(), Some(1));
}

#[test]
fn group_control_reports_partial_and_missing_members() {
    let online = plug(50, "online", true, None);
    let offline = plug(51, "offline", true, None);
    let mut devices = Devices::new(vec![online.clone(), offline.clone()]);
    devices.unreachable.push(offline.address);
    let remembered = vec![stored(online), stored(offline)];
    let lights = group(1, "All lights", &["online", "offline", "missing"]);
    let plan = group_plan(&lights, &remembered);
    let mut results = plan.missing;
    for index in plan.attempts {
        results.push(devices.run(&remembered[index], Requested::Relay(false)).unwrap());
    }
    let results = sorted_results(results);
    let body = mutation_response("r", "group", "1", Requested::Relay(false), &results);
    assert_eq!(at(&body, &["outcome"]).as_str(), Some("partial"));
    assert_eq!(at(&body, &["counts", "confirmed"]).as_u64(), Some(1));
    assert_eq!(at(&body, &["counts", "failed"]).as_u64(), Some(1));
    assert_eq!(at(&body, &["counts", "not_attempted"]).as_u64(), Some(1));
    assert_eq!(devices.commands, 1);
}

#[test]
fn disabled_and_unauthorized_requests_use_json_errors() {
    let disabled = authorize(&Auth::Disabled, None, "r").unwrap_err();
    assert_eq!(disabled.status, 503);
    assert_eq!(at(&disabled.body(), &["error", "code"]).as_str(), Some("api_disabled"));

    let header = format!("Bearer {}", "00".repeat(32));
    let refused = authorize(&Auth::Enabled([0xab; 32]), Some(&header), "r").unwrap_err();
    assert_eq!(refused.status, 401);
    assert_eq!(at(&refused.body(), &["error", "execution"]).as_str(), Some("not_started"));
}

#[test]
fn brightness_needs_a_value_a_dimmer_and_a_relay_that_is_on() {
    for value in [0, -1, 101, 256] {
        let error = requested_brightness(value, "id").unwrap_err();
        assert_eq!((error.status, error.code), (422, "invalid_brightness"));
        assert_eq!(error.details.unwrap().get("field").unwrap().as_str(), Some("brightness"));
    }
    assert_eq!(requested_brightness(100, "id").unwrap(), 100);
    let dimmer = plug(20, "dimmer", false, Some(40));
    let mut devices = Devices::new(vec![dimmer.clone()]);
    let error = devices.run(&stored(dimmer), Requested::Brightness(70)).unwrap_err();
    assert_eq!((error.status, error.code), (409, "relay_off"));
    assert_eq!(devices.commands, 0);
    let plain = plug(21, "plain", true, None);
    let mut devices = Devices::new(vec![plain.clone()]);
    let error = devices.run(&stored(plain), Requested::Brightness(70)).unwrap_err();
    assert_eq!((error.status, error.code), (422, "unsupported_capability"));
    assert_eq!(devices.commands, 0);
    let lit = plug(22, "lit", true, Some(40));
    let mut devices = Devices::new(vec![lit.clone()]);
    let result = devices.run(&stored(lit.clone()), Requested::Brightness(70)).unwrap();
    assert_eq!(result.outcome, Outcome::Confirmed);
    assert_eq!(result.observed.unwrap().brightness, Some(70));
    let mut forgetful = Devices::new(vec![lit.clone()]);
    forgetful.storing = false;
    let error = forgetful.run(&stored(lit), Requested::Brightness(70)).unwrap_err();
    assert_eq!((error.status, error.code), (500, "internal_error"));
}

#[test]
fn the_inventory_keeps_what_it_knows_of_devices_that_are_away() {
    let remembered = vec![
        stored(plug(30, "online", true, None)),
        stored(plug(31, "offline", false, None)),
    ];
    let statuses = vec![
        DeviceStatus {
            device_id: "online".to_owned(),
            status: probe_status("online", Some(plug(30, "online", true, None))),
        },
        DeviceStatus { device_id: "offline".to_owned(), status: probe_status("offline", None) },
    ];
    let groups = vec![
        group(1, "Mixed availability", &["online", "offline"]),
        group(2, "Whole", &["online"]),
    ];
    assert_eq!(fresh_states(&statuses), vec![plug(30, "online", true, None)]);
    let body = build_inventory(&remembered, groups, &statuses, 42).document();
    let devices = items(at(&body, &["devices"]));
    assert_eq!(at(&devices[1], &["id"]).as_str(), Some("offline"));
    assert_eq!(at(&devices[1], &["availability"]).as_str(), Some("offline"));
    assert_eq!(at(&devices[1], &["state", "relay"]).as_str(), Some("off"));
    assert_eq!(at(&devices[1], &["state", "observed_at"]).as_i64(), Some(7));
    assert_eq!(at(&devices[0], &["last_seen_at"]).as_i64(), Some(42));
    let groups = items(at(&body, &["groups"]));
    assert_eq!(at(&groups[0], &["availability"]).as_str(), Some("partial"));
    assert_eq!(at(&groups[0], &["state", "relay"]).as_str(), Some("unknown"));
    assert_eq!(at(&groups[0], &["state", "observed_at"]), &Json::Null);
    assert_eq!(at(&groups[0], &["members", "offline"]).as_u64(), Some(1));
    assert_eq!(at(&groups[1], &["state", "relay"]).as_str(), Some("on"));
    assert_eq!(at(&groups[1], &["id"]).as_str(), Some("2"));
    assert_eq!(at(&body, &["generated_at"]).as_i64(), Some(42));
    assert_eq!(at(&body, &["refresh_complete"]), &Json::Bool(true));
    assert!(matches!(probe_status("a", Some(plug(1, "b", true, None))), ProbeStatus::Unknown));
    assert_eq!(
        names(&body),
        ["api_version", "generated_at", "refresh_complete", "devices", "groups"]
    );
    assert_eq!(
        names(&devices[0]),
        ["id", "name", "capabilities", "availability", "last_seen_at", "state"]
    );
    assert_eq!(names(at(&devices[0], &["state"])), ["relay", "brightness", "observed_at"]);
    assert_eq!(names(at(&devices[0], &["capabilities"])), ["relay", "brightness"]);
    assert_eq!(
        names(&groups[0]),
        ["id", "name", "member_ids", "capabilities", "availability", "members", "state"]
    );
    assert_eq!(names(at(&groups[0], &["members"])), ["total", "online", "offline", "unknown"]);
    assert_eq!(names(at(&groups[0], &["state"])), ["relay", "observed_at"]);
}

#[test]
fn group_states_follow_the_members_that_answered() {
    let statuses: Vec<DeviceStatus> = [("on", true), ("off", false)]
        .iter()
        .map(|(id, relay_on)| DeviceStatus {
            device_id: (*id).to_owned(),
            status: ProbeStatus::Online(plug(1, id, *relay_on, None)),
        })
        .chain([DeviceStatus { device_id: "away".to_owned(), status: ProbeStatus::Offline }])
        .collect();
    let state = |members: &[&str]| {
        let view = inventory_group(group(1, "g", members), &statuses, 42);
        (view.availability, view.state.relay, view.state.observed_at)
    };
    assert_eq!(state(&["on", "off"]), ("online", "mixed", Some(42)));
    assert_eq!(state(&["off"]), ("online", "off", Some(42)));
    assert_eq!(state(&["on", "off", "away"]), ("partial", "mixed", Some(42)));
    assert_eq!(state(&["away"]), ("offline", "unknown", None));
    assert_eq!(state(&["away", "x"]), ("unknown", "unknown", None));
    assert_eq!(state(&["x"]), ("unknown", "unknown", None));
    assert_eq!(state(&[]), ("unknown", "on", Some(42)));
}

#[test]
fn group_control_reports_each_member_once() {
    let remembered = vec![
        stored(plug(50, "online", true, None)),
        stored(plug(51, "offline", true, None)),
    ];
    let mut devices =
        Devices::new(remembered.iter().map(|stored| stored.device.clone()).collect());
    devices.unreachable.push(v4(51));
    let lights = group(3, "All lights", &["online", "offline", "missing", "online"]);
    let plan = group_plan(&lights, &remembered);
    assert_eq!(plan.attempts, vec![0, 1]);
    let mut results = plan.missing;
    for index in plan.attempts {
        results.push(devices.run(&remembered[index], Requested::Relay(false)).unwrap());
    }
    let results = sorted_results(results);
    let names: Vec<&str> = results.iter().map(|result| result.device_id.as_str()).collect();
    assert_eq!(names, ["missing", "offline", "online"]);
    let body = mutation_response("r", "group", "3", Requested::Relay(false), &results);
    assert_eq!(at(&body, &["outcome"]).as_str(), Some("partial"));
    assert_eq!(at(&body, &["counts", "confirmed"]).as_u64(), Some(1));
    assert_eq!(at(&body, &["counts", "failed"]).as_u64(), Some(1));
    assert_eq!(at(&body, &["counts", "not_attempted"]).as_u64(), Some(1));
    assert_eq!(at(&body, &["counts", "unknown"]).as_u64(), Some(0));
    assert_eq!(devices.commands, 1);
}

#[test]
fn answers_to_commands_are_spelled_out() {
    let results = vec![DeviceResult {
        device_id: "d".to_owned(),
        outcome: Outcome::Unknown,
        code: Some(FailureCode::VerificationFailed),
        observed: None,
    }];
    assert_eq!(
        written(&mutation_response("r", "device", "d", Requested::Brightness(5), &results)),
        [
            r#"{"counts":{"confirmed":0,"failed":0,"not_attempted":0,"unknown":1},"outcome":"unknown","#,
            r#""request_id":"r","requested":{"brightness":5},"results":[{"code":"verification_failed","#,
            r#""device_id":"d","observed":null,"outcome":"unknown"}],"target":{"id":"d","kind":"device"}}"#,
        ]
        .concat()
    );
    assert_eq!(relay_state(true), "on");
    assert_eq!(relay_state(false), "off");
}

#[test]
fn targets_are_found_and_limited() {
    let remembered = vec![stored(plug(1, "a", true, None)), stored(plug(2, "a", true, None))];
    assert_eq!(find_device(&remembered, "a", "id").unwrap(), 0);
    assert_eq!(find_device(&remembered, "b", "id").unwrap_err().code, "device_not_found");
    assert_eq!(requested_group("12", "id").unwrap(), 12);
    assert_eq!(requested_group("x", "id").unwrap_err().code, "group_not_found");
    let many: Vec<String> = (0..257).map(|index| format!("d{index}")).collect();
    let members: Vec<&str> = many.iter().map(|name| name.as_str()).collect();
    assert!(require_group_size(&group(1, "g", &members[..256]), "id").is_ok());
    let error = require_group_size(&group(1, "g", &members), "id").unwrap_err();
    assert_eq!((error.status, error.message), (422, "The group exceeds the member limit."));
    assert!(require_limits(&remembered, &vec![group(1, "g", &["a"])], "id").is_ok());
    assert_eq!(
        require_limits(&remembered, &vec![group(1, "g", &members)], "id").unwrap_err().code,
        "inventory_too_large"
    );
    let groups: Vec<DeviceGroup> = (0..51).map(|id| group(id, "g", &[])).collect();
    assert!(require_limits(&Vec::new(), &groups, "id").is_err());
    let devices: Vec<StoredDevice> = (0..257).map(|_| stored(plug(1, "a", true, None))).collect();
    assert!(require_limits(&devices, &Vec::new(), "id").is_err());
    assert!(require_inventory_size(1_048_576, "id").is_ok());
    assert_eq!(
        require_inventory_size(1_048_577, "id").unwrap_err().message,
        "The inventory exceeds the API size limit."
    );
}
