//! Mock outlets: plugs that exist in memory only and answer the protocol.
use crate::client::command_request;
use crate::json::{Json, Number, Tree};
use crate::plug::{Address, Degrees, SmartPlug};
use crate::quantity::Quantity;
use crate::text::{decimal_text, same_text};
use vstd::prelude::*;
use vstd::string::*;

verus! {

/// The groups that mock outlets come with.
pub fn groups() -> (groups: Vec<(&'static str, Vec<String>)>)
    ensures
        groups@.len() == 1,
        groups@[0].0@ == "Living room"@,
        crate::text::texts(groups@[0].1@) == seq!["mock-outlet-2"@, "mock-outlet-4"@],
{
    let mut members: Vec<String> = Vec::new();
    members.push("mock-outlet-2".to_owned());
    members.push("mock-outlet-4".to_owned());
    proof {
        assert(crate::text::texts(members@) =~= seq!["mock-outlet-2"@, "mock-outlet-4"@]);
    }
    let mut groups: Vec<(&'static str, Vec<String>)> = Vec::new();
    groups.push(("Living room", members));
    groups
}

/// A mock outlet: a plug, and the rules that it keeps.
#[derive(Debug)]
pub struct Outlet {
    pub plug: SmartPlug,
    pub countdown_rules: Vec<Json>,
    pub schedule_rules: Vec<Json>,
    pub next_rule_id: u64,
}

/// The documents of rules.
pub open spec fn trees(rules: Seq<Json>) -> Seq<Tree> {
    rules.map_values(|rule: Json| rule.tree())
}

/// The address of a mock outlet, on the loopback network.
pub open spec fn mock_address(octet: u8) -> Address {
    Address { v6: false, bits: (0x7f00_0000 + octet) as u128 }
}

/// The latitude of mock outlets in ten-thousandths of a degree.
pub const MOCK_LATITUDE: i32 = 464_917;

/// The bits of the latitude of mock outlets in degrees.
pub const MOCK_LATITUDE_BITS: u64 = 0x4047_3ef0_068d_b8bb;

/// The longitude of mock outlets in ten-thousandths of a degree.
pub const MOCK_LONGITUDE: i32 = -809_930;

/// The bits of the longitude of mock outlets in degrees.
pub const MOCK_LONGITUDE_BITS: u64 = 0xc054_3f8d_4fdf_3b64;

/// Whether these are degrees of that number, text and rounding.
pub open spec fn is_angle(
    degrees: Option<Degrees>,
    bits: u64,
    text: Seq<char>,
    ten_thousandths: i32,
) -> bool {
    &&& degrees is Some
    &&& degrees->0.exact.bits == bits
    &&& degrees->0.text@ == text
    &&& degrees->0.ten_thousandths == ten_thousandths
}

fn angle(bits: u64, text: &str, ten_thousandths: i32) -> (degrees: Option<Degrees>)
    ensures
        is_angle(degrees, bits, text@, ten_thousandths),
{
    Some(Degrees { exact: Quantity { bits }, text: text.to_owned(), ten_thousandths })
}

/// The schedule of the outlet on the patio.
pub open spec fn patio_schedule() -> Tree {
    Tree::Object(
        seq![
            ("enable"@, crate::json::natural(1)),
            ("etime_opt"@, crate::json::integer(-1)),
            ("id"@, Tree::Text("mock-schedule-1"@)),
            ("name"@, Tree::Text("Patio at sunset"@)),
            ("repeat"@, crate::json::natural(1)),
            ("sact"@, crate::json::natural(1)),
            ("smin"@, crate::json::natural(0)),
            ("soffset"@, crate::json::integer(-15)),
            ("stime_opt"@, crate::json::natural(2)),
            ("wday"@, Tree::Array(Seq::new(7, |i: int| crate::json::natural(1)))),
        ],
    )
}

fn patio_schedule_json() -> (rule: Json)
    ensures
        rule.tree() == patio_schedule(),
{
    let mut days: Vec<Json> = Vec::new();
    let mut index: usize = 0;
    while index < 7
        invariant
            index <= 7,
            days@.len() == index,
            forall|i: int|
                0 <= i < index ==> (#[trigger] days@[i]).tree() == crate::json::natural(1),
        decreases 7 - index,
    {
        days.push(Json::unsigned(1));
        index = index + 1;
    }
    let week = Json::Array(days);
    proof {
        assert(week.tree()->Array_0 =~= Seq::new(7, |i: int| crate::json::natural(1)));
    }
    let rule = Json::empty().with("enable", Json::unsigned(1)).with("etime_opt", Json::signed(-1))
        .with("id", Json::text("mock-schedule-1")).with("name", Json::text("Patio at sunset")).with(
        "repeat",
        Json::unsigned(1),
    ).with("sact", Json::unsigned(1)).with("smin", Json::unsigned(0)).with(
        "soffset",
        Json::signed(-15),
    ).with("stime_opt", Json::unsigned(2)).with("wday", week);
    proof {
        assert(rule.tree()->Object_0 =~= patio_schedule()->Object_0);
    }
    rule
}

/// A mock outlet. The fourth has a schedule of its own.
pub fn mock_outlet(octet: u8, alias: &str, model: &str, relay_on: bool, brightness: Option<u8>) -> (
    outlet: Outlet)
    ensures
        outlet.plug.address == mock_address(octet),
        outlet.plug.model@ == model@,
        outlet.plug.alias@ == alias@,
        outlet.plug.device_id@ == "mock-outlet-"@ + crate::text::decimal(octet as nat),
        outlet.plug.software_version@ == "1.0.0-mock"@,
        outlet.plug.relay_on == relay_on,
        outlet.plug.brightness == brightness,
        is_angle(outlet.plug.latitude, MOCK_LATITUDE_BITS, "46.4917"@, MOCK_LATITUDE),
        is_angle(outlet.plug.longitude, MOCK_LONGITUDE_BITS, "-80.993"@, MOCK_LONGITUDE),
        outlet.countdown_rules@.len() == 0,
        trees(outlet.schedule_rules@) == (if octet == 4 {
            seq![patio_schedule()]
        } else {
            seq![]
        }),
        outlet.next_rule_id == 1,
{
    let mut schedule_rules: Vec<Json> = Vec::new();
    if octet == 4 {
        schedule_rules.push(patio_schedule_json());
        proof {
            assert(trees(schedule_rules@) =~= seq![patio_schedule()]);
        }
    } else {
        proof {
            assert(trees(schedule_rules@) =~= seq![]);
        }
    }
    let mut device_id = "mock-outlet-".to_owned();
    device_id.append(decimal_text(octet as u64).as_str());
    Outlet {
        plug: SmartPlug {
            address: Address { v6: false, bits: 0x7f00_0000 + octet as u128 },
            model: model.to_owned(),
            alias: alias.to_owned(),
            device_id,
            software_version: "1.0.0-mock".to_owned(),
            relay_on,
            brightness,
            latitude: angle(MOCK_LATITUDE_BITS, "46.4917", MOCK_LATITUDE),
            longitude: angle(MOCK_LONGITUDE_BITS, "-80.993", MOCK_LONGITUDE),
        },
        countdown_rules: Vec::new(),
        schedule_rules,
        next_rule_id: 1,
    }
}

/// The mock outlets.
pub fn mock_outlets() -> (outlets: Vec<Outlet>)
    ensures
        outlets@.len() == 3,
        forall|i: int|
            0 <= i < 3 ==> (#[trigger] outlets@[i]).plug.address == mock_address((i + 2) as u8),
        outlets@[0].plug.alias@ == "Living room lamp"@,
        outlets@[0].plug.model@ == "HS220(US)"@,
        outlets@[0].plug.relay_on && outlets@[0].plug.brightness == Some(65u8),
        outlets@[1].plug.alias@ == "Coffee maker"@,
        outlets@[1].plug.model@ == "HS103(US)"@,
        !outlets@[1].plug.relay_on && outlets@[1].plug.brightness is None,
        outlets@[2].plug.alias@ == "Patio lights"@,
        outlets@[2].plug.model@ == "KP115(US)"@,
        outlets@[2].plug.relay_on && outlets@[2].plug.brightness is None,
{
    let mut outlets: Vec<Outlet> = Vec::new();
    outlets.push(mock_outlet(2, "Living room lamp", "HS220(US)", true, Some(65)));
    outlets.push(mock_outlet(3, "Coffee maker", "HS103(US)", false, None));
    outlets.push(mock_outlet(4, "Patio lights", "KP115(US)", true, None));
    outlets
}

/// The module, the command and the arguments of a request: the first member of the first.
pub open spec fn request_parts(request: Tree) -> Option<(Seq<char>, Seq<char>, Tree)> {
    match request {
        Tree::Object(modules) => if modules.len() == 0 {
            None
        } else {
            match modules[0].1 {
                Tree::Object(commands) => if commands.len() == 0 {
                    None
                } else {
                    Some((modules[0].0, commands[0].0, commands[0].1))
                },
                _ => None,
            }
        },
        _ => None,
    }
}

/// The module, the command and the arguments of a request.
pub fn request_command(request: &Json) -> (parts: Option<(&str, &str, &Json)>)
    ensures
        match parts {
            Some(parts) => request_parts(request.tree()) == Some(
                (parts.0@, parts.1@, parts.2.tree()),
            ),
            None => request_parts(request.tree()) is None,
        },
{
    match request {
        Json::Object(modules) => {
            if modules.len() == 0 {
                return None;
            }
            proof {
                assert(request.tree()->Object_0[0] == (
                    modules@[0].name@,
                    modules@[0].value.tree(),
                ));
            }
            match &modules[0].value {
                Json::Object(commands) => {
                    if commands.len() == 0 {
                        return None;
                    }
                    proof {
                        assert(modules@[0].value.tree()->Object_0[0] == (
                            commands@[0].name@,
                            commands@[0].value.tree(),
                        ));
                    }
                    Some((modules[0].name.as_str(), commands[0].name.as_str(), &commands[0].value))
                },
                _ => None,
            }
        },
        _ => None,
    }
}

/// Degrees as a document: the number that the plug gives, and nothing where that is not finite.
pub open spec fn degrees_tree(value: Option<Degrees>) -> Tree {
    match value {
        Some(value) => if crate::quantity::is_finite(value.exact) {
            Tree::Number(crate::json::NumberModel::Decimal(value.text@))
        } else {
            Tree::Null
        },
        None => Tree::Null,
    }
}

fn degrees_json(value: &Option<Degrees>) -> (document: Json)
    ensures
        document.tree() == degrees_tree(*value),
{
    match value {
        Some(value) => if value.exact.finite() {
            Json::Number(Number::Decimal(value.text.clone()))
        } else {
            Json::Null
        },
        None => Json::Null,
    }
}

/// What a mock outlet says of itself.
pub open spec fn sysinfo_tree(plug: SmartPlug) -> Tree {
    Tree::Object(
        seq![
            ("alias"@, Tree::Text(plug.alias@)),
            ("brightness"@, crate::report::brightness_tree(plug.brightness)),
            ("deviceId"@, Tree::Text(plug.device_id@)),
            ("err_code"@, crate::json::natural(0)),
            ("latitude"@, degrees_tree(plug.latitude)),
            ("longitude"@, degrees_tree(plug.longitude)),
            ("model"@, Tree::Text(plug.model@)),
            ("relay_state"@, crate::client::flag(plug.relay_on)),
            ("sw_ver"@, Tree::Text(plug.software_version@)),
        ],
    )
}

fn sysinfo_json(plug: &SmartPlug) -> (document: Json)
    ensures
        document.tree() == sysinfo_tree(*plug),
{
    let brightness = match plug.brightness {
        Some(value) => Json::unsigned(value as u64),
        None => Json::Null,
    };
    let relay = if plug.relay_on {
        Json::unsigned(1)
    } else {
        Json::unsigned(0)
    };
    let document = Json::empty().with("alias", Json::text(plug.alias.as_str())).with(
        "brightness",
        brightness,
    ).with("deviceId", Json::text(plug.device_id.as_str())).with(
        "err_code",
        Json::unsigned(0),
    ).with("latitude", degrees_json(&plug.latitude)).with(
        "longitude",
        degrees_json(&plug.longitude),
    ).with("model", Json::text(plug.model.as_str())).with("relay_state", relay).with(
        "sw_ver",
        Json::text(plug.software_version.as_str()),
    );
    proof {
        assert(document.tree()->Object_0 =~= sysinfo_tree(*plug)->Object_0);
    }
    document
}

/// The answer that a command succeeded.
pub open spec fn success() -> Tree {
    Tree::Object(seq![("err_code"@, crate::json::natural(0))])
}

fn success_json() -> (document: Json)
    ensures
        document.tree() == success(),
{
    Json::empty().with("err_code", Json::unsigned(0))
}

/// The answer that a command failed.
pub open spec fn failure(message: Seq<char>) -> Tree {
    Tree::Object(
        seq![("err_code"@, crate::json::integer(-1)), ("err_msg"@, Tree::Text(message))],
    )
}

fn failure_json(message: &str) -> (document: Json)
    ensures
        document.tree() == failure(message@),
{
    let document = Json::empty().with("err_code", Json::signed(-1)).with(
        "err_msg",
        Json::text(message),
    );
    proof {
        assert(document.tree()->Object_0 =~= failure(message@)->Object_0);
    }
    document
}

/// The answer that lists rules.
pub open spec fn rules_tree(rules: Seq<Tree>) -> Tree {
    Tree::Object(
        seq![
            ("enable"@, crate::json::natural(1)),
            ("err_code"@, crate::json::natural(0)),
            ("rule_list"@, Tree::Array(rules)),
            ("version"@, crate::json::natural(2)),
        ],
    )
}

fn rules_response(rules: &Vec<Json>) -> (document: Json)
    ensures
        document.tree() == rules_tree(trees(rules@)),
{
    let mut items: Vec<Json> = Vec::new();
    let mut index: usize = 0;
    while index < rules.len()
        invariant
            index <= rules@.len(),
            items@.len() == index,
            forall|i: int| 0 <= i < index ==> (#[trigger] items@[i]).tree() == rules@[i].tree(),
        decreases rules@.len() - index,
    {
        items.push(rules[index].duplicate());
        index = index + 1;
    }
    let list = Json::Array(items);
    proof {
        assert(list.tree()->Array_0 =~= trees(rules@));
    }
    let document = Json::empty().with("enable", Json::unsigned(1)).with(
        "err_code",
        Json::unsigned(0),
    ).with("rule_list", list).with("version", Json::unsigned(2));
    proof {
        assert(document.tree()->Object_0 =~= rules_tree(trees(rules@))->Object_0);
    }
    document
}

/// The identity of a rule, where it has one that is a text.
pub open spec fn rule_id(rule: Tree) -> Option<Seq<char>> {
    match crate::json::tree_member(rule, "id"@) {
        Some(id) => crate::json::tree_text(id),
        None => None,
    }
}

/// The rules among the first `count` that have another identity than this.
pub open spec fn without_rule(rules: Seq<Tree>, id: Option<Seq<char>>, count: int) -> Seq<Tree>
    decreases count,
{
    if count <= 0 {
        seq![]
    } else {
        let front = without_rule(rules, id, count - 1);
        if rule_id(rules[count - 1]) == id {
            front
        } else {
            front.push(rules[count - 1])
        }
    }
}

fn has_id(rule: &Json, id: &Option<String>) -> (result: bool)
    ensures
        result == (rule_id(rule.tree()) == (match *id {
            Some(id) => Some(id@),
            None => None,
        })),
{
    let own = match rule.get("id") {
        Some(value) => value.as_str(),
        None => None,
    };
    match (own, id) {
        (Some(own), Some(id)) => same_text(own, id.as_str()),
        (None, None) => true,
        _ => false,
    }
}

fn delete_rule(rules: &mut Vec<Json>, arguments: &Json)
    ensures
        trees(final(rules)@) == without_rule(
            trees(old(rules)@),
            rule_id(arguments.tree()),
            old(rules)@.len() as int,
        ),
{
    let id = match arguments.get("id") {
        Some(value) => match value.as_str() {
            Some(text) => Some(text.to_owned()),
            None => None,
        },
        None => None,
    };
    let ghost all = trees(rules@);
    let ghost total = rules@.len() as int;
    let ghost mut seen: int = 0;
    let mut index: usize = 0;
    proof {
        assert(trees(rules@).take(0) =~= seq![]);
        assert(trees(rules@) =~= without_rule(all, rule_id(arguments.tree()), 0) + all.skip(0));
    }
    while index < rules.len()
        invariant
            0 <= seen <= total,
            total == all.len(),
            index <= rules@.len(),
            rules@.len() - index == total - seen,
            rule_id(arguments.tree()) == (match id {
                Some(id) => Some(id@),
                None => None,
            }),
            index == without_rule(all, rule_id(arguments.tree()), seen).len(),
            trees(rules@) == without_rule(all, rule_id(arguments.tree()), seen) + all.skip(seen),
        decreases rules@.len() - index,
    {
        let ghost before = rules@;
        let ghost kept = without_rule(all, rule_id(arguments.tree()), seen);
        proof {
            assert(trees(before)[index as int] == before[index as int].tree());
            assert((kept + all.skip(seen))[index as int] == all[seen]);
        }
        if has_id(&rules[index], &id) {
            rules.remove(index);
            proof {
                seen = seen + 1;
                assert(trees(rules@) =~= trees(before).remove(index as int));
                assert(trees(rules@) =~= kept + all.skip(seen));
            }
        } else {
            index = index + 1;
            proof {
                seen = seen + 1;
                assert(trees(rules@) =~= kept.push(all[seen - 1]) + all.skip(seen));
            }
        }
    }
    proof {
        assert(all.skip(seen) =~= seq![]);
        assert(trees(rules@) =~= without_rule(all, rule_id(arguments.tree()), seen));
    }
}

/// What a mock outlet can be asked for.
#[derive(Debug, Clone, Copy, PartialEq, Eq, Structural)]
pub enum MockCommand {
    Describe,
    SwitchRelay,
    SetBrightness,
    ListCountdowns,
    AddCountdown,
    DeleteCountdown,
    DeleteCountdowns,
    ListSchedules,
    DeleteSchedule,
    Unknown,
}

/// What a module and a command ask a mock outlet for. Only a dimmer takes a brightness.
pub open spec fn command_of(module: Seq<char>, command: Seq<char>, dimmer: bool) -> MockCommand {
    if module == "system"@ && command == "get_sysinfo"@ {
        MockCommand::Describe
    } else if module == "system"@ && command == "set_relay_state"@ {
        MockCommand::SwitchRelay
    } else if module == "smartlife.iot.dimmer"@ && command == "set_brightness"@ && dimmer {
        MockCommand::SetBrightness
    } else if module == "count_down"@ && command == "get_rules"@ {
        MockCommand::ListCountdowns
    } else if module == "count_down"@ && command == "add_rule"@ {
        MockCommand::AddCountdown
    } else if module == "count_down"@ && command == "delete_rule"@ {
        MockCommand::DeleteCountdown
    } else if module == "count_down"@ && command == "delete_all_rules"@ {
        MockCommand::DeleteCountdowns
    } else if module == "schedule"@ && command == "get_rules"@ {
        MockCommand::ListSchedules
    } else if module == "schedule"@ && command == "delete_rule"@ {
        MockCommand::DeleteSchedule
    } else {
        MockCommand::Unknown
    }
}

fn mock_command(module: &str, command: &str, dimmer: bool) -> (result: MockCommand)
    ensures
        result == command_of(module@, command@, dimmer),
{
    if same_text(module, "system") && same_text(command, "get_sysinfo") {
        MockCommand::Describe
    } else if same_text(module, "system") && same_text(command, "set_relay_state") {
        MockCommand::SwitchRelay
    } else if same_text(module, "smartlife.iot.dimmer") && same_text(command, "set_brightness")
        && dimmer {
        MockCommand::SetBrightness
    } else if same_text(module, "count_down") && same_text(command, "get_rules") {
        MockCommand::ListCountdowns
    } else if same_text(module, "count_down") && same_text(command, "add_rule") {
        MockCommand::AddCountdown
    } else if same_text(module, "count_down") && same_text(command, "delete_rule") {
        MockCommand::DeleteCountdown
    } else if same_text(module, "count_down") && same_text(command, "delete_all_rules") {
        MockCommand::DeleteCountdowns
    } else if same_text(module, "schedule") && same_text(command, "get_rules") {
        MockCommand::ListSchedules
    } else if same_text(module, "schedule") && same_text(command, "delete_rule") {
        MockCommand::DeleteSchedule
    } else {
        MockCommand::Unknown
    }
}

/// The mathematical value of an outlet: the plug, its rules, and the number of the next rule.
#[verifier::ext_equal]
pub struct OutletState {
    pub plug: SmartPlug,
    pub countdowns: Seq<Tree>,
    pub schedules: Seq<Tree>,
    pub next_rule_id: nat,
}

impl View for Outlet {
    type V = OutletState;

    open spec fn view(&self) -> OutletState {
        OutletState {
            plug: self.plug,
            countdowns: trees(self.countdown_rules@),
            schedules: trees(self.schedule_rules@),
            next_rule_id: self.next_rule_id as nat,
        }
    }
}

/// Whether arguments ask for a relay that is on.
pub open spec fn asks_on(arguments: Tree) -> bool {
    match crate::json::tree_member(arguments, "state"@) {
        Some(state) => crate::json::tree_natural(state) is Some && crate::json::tree_natural(
            state,
        )->0 != 0,
        None => false,
    }
}

/// The brightness that arguments ask for, where it fits in a byte.
pub open spec fn asked_brightness(arguments: Tree) -> Option<u8> {
    match crate::json::tree_member(arguments, "brightness"@) {
        Some(value) => match crate::json::tree_natural(value) {
            Some(level) => if level <= u8::MAX {
                Some(level as u8)
            } else {
                None
            },
            None => None,
        },
        None => None,
    }
}

/// The identity of a countdown that is added.
pub open spec fn countdown_id(number: nat) -> Seq<char> {
    "mock-countdown-"@ + crate::text::decimal(number)
}

/// The countdown that is added: the arguments with its identity put in.
pub open spec fn new_countdown(arguments: Tree, number: nat) -> Tree {
    let members = match arguments {
        Tree::Object(members) => members,
        _ => seq![],
    };
    Tree::Object(
        crate::json::member_put(members, "id"@, Tree::Text(countdown_id(number))),
    )
}

/// What a mock outlet is after a command.
pub open spec fn after(state: OutletState, command: MockCommand, arguments: Tree) -> OutletState {
    match command {
        MockCommand::SwitchRelay => OutletState {
            plug: SmartPlug { relay_on: asks_on(arguments), ..state.plug },
            ..state
        },
        MockCommand::SetBrightness => OutletState {
            plug: SmartPlug { brightness: asked_brightness(arguments), ..state.plug },
            ..state
        },
        MockCommand::AddCountdown => OutletState {
            countdowns: state.countdowns.push(new_countdown(arguments, state.next_rule_id)),
            next_rule_id: state.next_rule_id + 1,
            ..state
        },
        MockCommand::DeleteCountdown => OutletState {
            countdowns: without_rule(
                state.countdowns,
                rule_id(arguments),
                state.countdowns.len() as int,
            ),
            ..state
        },
        MockCommand::DeleteCountdowns => OutletState { countdowns: seq![], ..state },
        MockCommand::DeleteSchedule => OutletState {
            schedules: without_rule(
                state.schedules,
                rule_id(arguments),
                state.schedules.len() as int,
            ),
            ..state
        },
        _ => state,
    }
}

/// What a mock outlet answers to a command.
pub open spec fn reply(state: OutletState, command: MockCommand) -> Tree {
    match command {
        MockCommand::Describe => sysinfo_tree(state.plug),
        MockCommand::ListCountdowns => rules_tree(state.countdowns),
        MockCommand::ListSchedules => rules_tree(state.schedules),
        MockCommand::AddCountdown => Tree::Object(
            seq![
                ("err_code"@, crate::json::natural(0)),
                ("id"@, Tree::Text(countdown_id(state.next_rule_id))),
            ],
        ),
        MockCommand::Unknown => failure("command not implemented by mock outlet"@),
        _ => success(),
    }
}

/// Whether a request adds a countdown, whose number has to fit.
pub open spec fn adds_countdown(request: Tree) -> bool {
    request_parts(request) matches Some((module, command, _)) && module == "count_down"@ && command
        == "add_rule"@
}

/// Whether a request adds a countdown, whose number has to fit.
pub fn is_addition(request: &Json) -> (result: bool)
    ensures
        result == adds_countdown(request.tree()),
{
    match request_command(request) {
        Some((module, command, _)) => same_text(module, "count_down") && same_text(
            command,
            "add_rule",
        ),
        None => false,
    }
}

/// What a mock outlet answers to a request.
pub open spec fn response(state: OutletState, request: Tree) -> Tree {
    match request_parts(request) {
        Some((module, command, arguments)) => crate::client::envelope(
            module,
            command,
            reply(state, command_of(module, command, state.plug.brightness is Some)),
        ),
        None => crate::client::single("system"@, failure("invalid request"@)),
    }
}

/// What a mock outlet is after a request.
pub open spec fn state_after(state: OutletState, request: Tree) -> OutletState {
    match request_parts(request) {
        Some((module, command, arguments)) => after(
            state,
            command_of(module, command, state.plug.brightness is Some),
            arguments,
        ),
        None => state,
    }
}

fn argument(arguments: &Json, name: &str) -> (value: Option<u64>)
    ensures
        value == (match crate::json::tree_member(arguments.tree(), name@) {
            Some(value) => crate::json::tree_natural(value),
            None => None,
        }),
{
    match arguments.get(name) {
        Some(value) => value.as_u64(),
        None => None,
    }
}

fn add_countdown(outlet: &mut Outlet, arguments: &Json) -> (result: Json)
    requires
        old(outlet).next_rule_id < u64::MAX,
    ensures
        final(outlet)@ == after(old(outlet)@, MockCommand::AddCountdown, arguments.tree()),
        result.tree() == reply(old(outlet)@, MockCommand::AddCountdown),
{
    let mut id = "mock-countdown-".to_owned();
    id.append(decimal_text(outlet.next_rule_id).as_str());
    outlet.next_rule_id = outlet.next_rule_id + 1;
    let rule = match arguments {
        Json::Object(_) => arguments.duplicate(),
        _ => Json::empty(),
    };
    let rule = rule.put("id", Json::text(id.as_str()));
    let ghost before = outlet.countdown_rules@;
    outlet.countdown_rules.push(rule);
    proof {
        assert(trees(outlet.countdown_rules@) =~= trees(before).push(rule.tree()));
    }
    let result = Json::empty().with("err_code", Json::unsigned(0)).with(
        "id",
        Json::text(id.as_str()),
    );
    proof {
        assert(result.tree()->Object_0 =~= reply(
            old(outlet)@,
            MockCommand::AddCountdown,
        )->Object_0);
    }
    result
}

/// Answers a request as a plug would, and does what it asks for.
pub fn respond(outlet: &mut Outlet, request: &Json) -> (answer: Json)
    requires
        adds_countdown(request.tree()) ==> old(outlet).next_rule_id < u64::MAX,
    ensures
        answer.tree() == response(old(outlet)@, request.tree()),
        final(outlet)@ == state_after(old(outlet)@, request.tree()),
{
    let (module, command, arguments) = match request_command(request) {
        Some(parts) => parts,
        None => return Json::empty().with("system", failure_json("invalid request")),
    };
    let result = match mock_command(module, command, outlet.plug.brightness.is_some()) {
        MockCommand::Describe => sysinfo_json(&outlet.plug),
        MockCommand::SwitchRelay => {
            outlet.plug.relay_on = match argument(arguments, "state") {
                Some(state) => state != 0,
                None => false,
            };
            success_json()
        },
        MockCommand::SetBrightness => {
            outlet.plug.brightness = match argument(arguments, "brightness") {
                Some(level) => if level <= u8::MAX as u64 {
                    Some(level as u8)
                } else {
                    None
                },
                None => None,
            };
            success_json()
        },
        MockCommand::ListCountdowns => rules_response(&outlet.countdown_rules),
        MockCommand::AddCountdown => add_countdown(outlet, arguments),
        MockCommand::DeleteCountdown => {
            delete_rule(&mut outlet.countdown_rules, arguments);
            success_json()
        },
        MockCommand::DeleteCountdowns => {
            outlet.countdown_rules = Vec::new();
            proof {
                assert(trees(outlet.countdown_rules@) =~= seq![]);
            }
            success_json()
        },
        MockCommand::ListSchedules => rules_response(&outlet.schedule_rules),
        MockCommand::DeleteSchedule => {
            delete_rule(&mut outlet.schedule_rules, arguments);
            success_json()
        },
        MockCommand::Unknown => failure_json("command not implemented by mock outlet"),
    };
    command_request(module, command, result)
}

/// The answer that a request failed.
pub fn error_response(request: &Json, message: &str) -> (answer: Json)
    ensures
        answer.tree() == (match request_parts(request.tree()) {
            Some((module, command, _)) => crate::client::envelope(
                module,
                command,
                failure(message@),
            ),
            None => crate::client::single("system"@, failure(message@)),
        }),
{
    match request_command(request) {
        Some((module, command, _)) => command_request(module, command, failure_json(message)),
        None => Json::empty().with("system", failure_json(message)),
    }
}

/// The outlet at an address, by its place.
pub fn find_outlet(outlets: &Vec<Outlet>, address: Address) -> (index: Option<usize>)
    ensures
        match index {
            Some(index) => index < outlets@.len() && outlets@[index as int].plug.address == address
                && forall|i: int|
                0 <= i < index ==> (#[trigger] outlets@[i]).plug.address != address,
            None => forall|i: int|
                0 <= i < outlets@.len() ==> (#[trigger] outlets@[i]).plug.address != address,
        },
{
    let mut index: usize = 0;
    while index < outlets.len()
        invariant
            index <= outlets@.len(),
            forall|i: int| 0 <= i < index ==> (#[trigger] outlets@[i]).plug.address != address,
        decreases outlets@.len() - index,
    {
        if outlets[index].plug.address == address {
            return Some(index);
        }
        index = index + 1;
    }
    None
}

/// A mock outlet that is told to switch its relay answers that it did, and from then on
/// reports the state that was asked for.
pub proof fn law_switched_relay_is_reported(state: OutletState, on: bool)
    ensures
        ({
            let request = crate::client::envelope(
                "system"@,
                "set_relay_state"@,
                crate::client::single("state"@, crate::client::flag(on)),
            );
            let question = crate::client::envelope(
                "system"@,
                "get_sysinfo"@,
                crate::client::empty_object(),
            );
            let later = state_after(state, request);
            &&& later == (OutletState { plug: SmartPlug { relay_on: on, ..state.plug }, ..state })
            &&& crate::client::answer(
                response(state, request),
                "system"@,
                "set_relay_state"@,
            ) == crate::client::Answer::Given(success())
            &&& crate::client::answer(response(later, question), "system"@, "get_sysinfo"@)
                == crate::client::Answer::Given(sysinfo_tree(later.plug))
            &&& crate::json::tree_member(sysinfo_tree(later.plug), "relay_state"@) == Some(
                crate::client::flag(on),
            )
        }),
{
    reveal_strlit("system");
    reveal_strlit("set_relay_state");
    reveal_strlit("get_sysinfo");
    reveal_strlit("err_code");
    reveal_strlit("alias");
    reveal_strlit("brightness");
    reveal_strlit("deviceId");
    reveal_strlit("latitude");
    reveal_strlit("longitude");
    reveal_strlit("model");
    reveal_strlit("relay_state");
    assert("set_relay_state"@.len() != "get_sysinfo"@.len());
    assert("err_code"@.len() != "set_relay_state"@.len());
    assert("err_code"@.len() != "get_sysinfo"@.len());
    assert("deviceId"@[0] == 'd' && "err_code"@[0] == 'e' && "latitude"@[0] == 'l');
    assert("alias"@.len() != "err_code"@.len());
    assert("brightness"@.len() != "err_code"@.len());
    assert("relay_state"@[0] == 'r');
    assert("brightness"@[0] == 'b');
    reveal_with_fuel(crate::json::member_named, 9);
}

proof fn lemma_kept_rules(rules: Seq<Tree>, id: Option<Seq<char>>, count: int)
    requires
        0 <= count <= rules.len(),
        forall|i: int| 0 <= i < count ==> rule_id(#[trigger] rules[i]) != id,
    ensures
        without_rule(rules, id, count) == rules.take(count),
    decreases count,
{
    if count > 0 {
        lemma_kept_rules(rules, id, count - 1);
        assert(rule_id(rules[count - 1]) != id);
        assert(rules.take(count - 1).push(rules[count - 1]) =~= rules.take(count));
    } else {
        assert(rules.take(0) =~= seq![]);
    }
}

proof fn lemma_put_is_found(members: Seq<(Seq<char>, Tree)>, name: Seq<char>, value: Tree)
    ensures
        crate::json::member_named(crate::json::member_put(members, name, value), name) == Some(
            value,
        ),
    decreases members.len(),
{
    let put = crate::json::member_put(members, name, value);
    if members.len() > 0 && members[0].0 != name && !crate::text::text_before(
        name,
        members[0].0,
    ) {
        lemma_put_is_found(members.drop_first(), name, value);
        assert(put.drop_first() =~= crate::json::member_put(members.drop_first(), name, value));
    }
}

proof fn lemma_prefix_rules(rules: Seq<Tree>, extra: Tree, id: Option<Seq<char>>, count: int)
    requires
        0 <= count <= rules.len(),
    ensures
        without_rule(rules.push(extra), id, count) == without_rule(rules, id, count),
    decreases count,
{
    if count > 0 {
        lemma_prefix_rules(rules, extra, id, count - 1);
    }
}

/// A countdown that was added has the identity that the answer gives, and deleting that
/// identity leaves the countdowns that were there before, where none of them had it.
pub proof fn law_deleting_undoes_adding(state: OutletState, arguments: Tree)
    requires
        forall|i: int|
            0 <= i < state.countdowns.len() ==> rule_id(#[trigger] state.countdowns[i]) != Some(
                countdown_id(state.next_rule_id),
            ),
    ensures
        ({
            let id = Tree::Text(countdown_id(state.next_rule_id));
            let added = after(state, MockCommand::AddCountdown, arguments);
            let deleted = after(
                added,
                MockCommand::DeleteCountdown,
                crate::client::single("id"@, id),
            );
            &&& crate::json::tree_member(reply(state, MockCommand::AddCountdown), "id"@) == Some(id)
            &&& rule_id(added.countdowns.last()) == Some(countdown_id(state.next_rule_id))
            &&& deleted.countdowns == state.countdowns
        }),
{
    let text = countdown_id(state.next_rule_id);
    let id = Some(text);
    let rule = new_countdown(arguments, state.next_rule_id);
    let members = match arguments {
        Tree::Object(members) => members,
        _ => seq![],
    };
    lemma_put_is_found(members, "id"@, Tree::Text(text));
    assert(rule_id(rule) == id);
    assert(rule_id(crate::client::single("id"@, Tree::Text(text))) == id);
    lemma_kept_rules(state.countdowns, id, state.countdowns.len() as int);
    lemma_prefix_rules(state.countdowns, rule, id, state.countdowns.len() as int);
    assert(state.countdowns.take(state.countdowns.len() as int) =~= state.countdowns);
    reveal_strlit("err_code");
    reveal_strlit("id");
    assert("err_code"@.len() != "id"@.len());
    reveal_with_fuel(crate::json::member_named, 3);
}

/// No rule keeps an identity that was deleted.
pub proof fn law_deleted_rules_are_gone(rules: Seq<Tree>, id: Option<Seq<char>>, count: int)
    requires
        0 <= count <= rules.len(),
    ensures
        forall|i: int|
            0 <= i < without_rule(rules, id, count).len() ==> rule_id(
                #[trigger] without_rule(rules, id, count)[i],
            ) != id,
    decreases count,
{
    if count > 0 {
        law_deleted_rules_are_gone(rules, id, count - 1);
        let front = without_rule(rules, id, count - 1);
        assert forall|i: int| 0 <= i < without_rule(rules, id, count).len() implies rule_id(
            #[trigger] without_rule(rules, id, count)[i],
        ) != id by {
            if i < front.len() {
                assert(without_rule(rules, id, count)[i] == front[i]);
            }
        }
    }
}

proof fn lemma_words()
    ensures
        "system"@ != "smartlife.iot.dimmer"@,
        "system"@ != "count_down"@,
        "system"@ != "schedule"@,
        "smartlife.iot.dimmer"@ != "count_down"@,
        "smartlife.iot.dimmer"@ != "schedule"@,
        "count_down"@ != "schedule"@,
        "get_rules"@ != "add_rule"@,
        "get_rules"@ != "delete_rule"@,
        "get_rules"@ != "delete_all_rules"@,
        "add_rule"@ != "delete_rule"@,
        "add_rule"@ != "delete_all_rules"@,
        "delete_rule"@ != "delete_all_rules"@,
{
    reveal_strlit("system");
    reveal_strlit("smartlife.iot.dimmer");
    reveal_strlit("count_down");
    reveal_strlit("schedule");
    reveal_strlit("get_rules");
    reveal_strlit("add_rule");
    reveal_strlit("delete_rule");
    reveal_strlit("delete_all_rules");
    assert("system"@.len() == 6 && "smartlife.iot.dimmer"@.len() == 20);
    assert("count_down"@.len() == 10 && "schedule"@.len() == 8);
    assert("get_rules"@.len() == 9 && "add_rule"@.len() == 8);
    assert("delete_rule"@.len() == 11 && "delete_all_rules"@.len() == 16);
}

/// A dimmer takes the brightness that it is asked for, and nothing else of it changes. A plug
/// without a dimmer stays as it is, and reports an error.
pub proof fn law_only_dimmers_take_brightness(state: OutletState, level: u8)
    ensures
        ({
            let request = crate::client::envelope(
                "smartlife.iot.dimmer"@,
                "set_brightness"@,
                crate::client::single("brightness"@, crate::json::natural(level as int)),
            );
            let after = state_after(state, request);
            let answer = crate::client::answer(
                response(state, request),
                "smartlife.iot.dimmer"@,
                "set_brightness"@,
            );
            &&& state.plug.brightness is Some ==> after.plug.brightness == Some(level)
                && after.plug.relay_on == state.plug.relay_on && after.countdowns
                == state.countdowns && after.schedules == state.schedules
            &&& state.plug.brightness is None ==> after == state && (answer
                matches crate::client::Answer::Failed(code, _) && code == -1)
        }),
{
    lemma_words();
    let arguments = crate::client::single("brightness"@, crate::json::natural(level as int));
    assert(crate::json::tree_member(arguments, "brightness"@) == Some(
        crate::json::natural(level as int),
    ));
    if state.plug.brightness is None {
        reveal_strlit("set_brightness");
        reveal_strlit("err_code");
        assert("set_brightness"@.len() != "err_code"@.len());
        lemma_failure_is_reported(
            "smartlife.iot.dimmer"@,
            "set_brightness"@,
            "command not implemented by mock outlet"@,
        );
    }
}

proof fn lemma_failure_is_reported(module: Seq<char>, command: Seq<char>, message: Seq<char>)
    requires
        command != "err_code"@,
    ensures
        crate::client::answer(
            crate::client::envelope(module, command, failure(message)),
            module,
            command,
        ) matches crate::client::Answer::Failed(code, _) && code == -1,
{
    let members: Seq<(Seq<char>, Tree)> = seq![
        ("err_code"@, crate::json::integer(-1)),
        ("err_msg"@, Tree::Text(message)),
    ];
    assert(failure(message) == Tree::Object(members));
    assert(members[0].0 == "err_code"@);
    assert(crate::json::member_named(members, "err_code"@) == Some(crate::json::integer(-1)));
    assert(crate::client::reported_code(failure(message)) == Some(-1i64));
    let commands: Seq<(Seq<char>, Tree)> = seq![(command, failure(message))];
    assert(commands.drop_first().len() == 0);
    assert(crate::json::member_named(commands.drop_first(), "err_code"@) is None);
    assert(crate::client::reported_code(Tree::Object(commands)) is None);
}

/// Deleting a rule takes it from the list of its own module alone, and deleting all countdowns
/// leaves the schedules.
pub proof fn law_lists_are_kept_apart(state: OutletState, id: Seq<char>, rule: Tree)
    ensures
        ({
            let named = crate::client::single("id"@, Tree::Text(id));
            let without_schedule = state_after(
                state,
                crate::client::envelope("schedule"@, "delete_rule"@, named),
            );
            let without_countdown = state_after(
                state,
                crate::client::envelope("count_down"@, "delete_rule"@, named),
            );
            let cleared = state_after(
                state,
                crate::client::envelope("count_down"@, "delete_all_rules"@, named),
            );
            &&& without_schedule.countdowns == state.countdowns
            &&& without_schedule.schedules.contains(rule) <==> state.schedules.contains(rule)
                && rule_id(rule) != Some(id)
            &&& without_countdown.schedules == state.schedules
            &&& without_countdown.countdowns.contains(rule) <==> state.countdowns.contains(rule)
                && rule_id(rule) != Some(id)
            &&& cleared.schedules == state.schedules
            &&& cleared.countdowns.len() == 0
            &&& without_schedule.plug == state.plug && without_countdown.plug == state.plug
                && cleared.plug == state.plug
        }),
{
    lemma_words();
    let named = crate::client::single("id"@, Tree::Text(id));
    assert(crate::json::tree_member(named, "id"@) == Some(Tree::Text(id)));
    assert(rule_id(named) == Some(id));
    lemma_without_rule(state.schedules, Some(id), state.schedules.len() as int, rule);
    lemma_without_rule(state.countdowns, Some(id), state.countdowns.len() as int, rule);
    assert(state.schedules.take(state.schedules.len() as int) =~= state.schedules);
    assert(state.countdowns.take(state.countdowns.len() as int) =~= state.countdowns);
}

proof fn lemma_without_rule(rules: Seq<Tree>, id: Option<Seq<char>>, count: int, rule: Tree)
    requires
        0 <= count <= rules.len(),
    ensures
        without_rule(rules, id, count).contains(rule) <==> rules.take(count).contains(rule)
            && rule_id(rule) != id,
    decreases count,
{
    if count > 0 {
        lemma_without_rule(rules, id, count - 1, rule);
        let front = without_rule(rules, id, count - 1);
        let all = without_rule(rules, id, count);
        let last = rules[count - 1];
        let taken = rules.take(count);
        let before = rules.take(count - 1);
        assert(taken[count - 1] == last);
        if before.contains(rule) {
            let i = choose|i: int| 0 <= i < before.len() && before[i] == rule;
            assert(taken[i] == rule);
        }
        if taken.contains(rule) && rule != last {
            let i = choose|i: int| 0 <= i < taken.len() && taken[i] == rule;
            assert(before[i] == rule);
        }
        if rule_id(last) != id {
            assert(all == front.push(last));
            assert(all[front.len() as int] == last);
            if front.contains(rule) {
                let i = choose|i: int| 0 <= i < front.len() && front[i] == rule;
                assert(all[i] == rule);
            }
            if all.contains(rule) && rule != last {
                let i = choose|i: int| 0 <= i < all.len() && all[i] == rule;
                assert(front[i] == rule);
            }
        }
    }
}

/// A mock outlet is asked to switch its relay by a number: any but zero turns it on.
pub proof fn law_any_number_but_zero_turns_on(state: OutletState, number: u64)
    ensures
        ({
            let after = state_after(
                state,
                crate::client::envelope(
                    "system"@,
                    "set_relay_state"@,
                    crate::client::single("state"@, crate::json::natural(number as int)),
                ),
            );
            &&& after.plug.relay_on <==> number != 0
            &&& after.plug.brightness == state.plug.brightness
            &&& after.countdowns == state.countdowns
            &&& after.schedules == state.schedules
        }),
{
    reveal_strlit("get_sysinfo");
    reveal_strlit("set_relay_state");
    assert("get_sysinfo"@.len() != "set_relay_state"@.len());
    let arguments = crate::client::single("state"@, crate::json::natural(number as int));
    assert(crate::json::tree_member(arguments, "state"@) == Some(
        crate::json::natural(number as int),
    ));
}

proof fn lemma_sysinfo_words()
    ensures
        "alias"@ != "brightness"@,
        "alias"@ != "deviceId"@,
        "alias"@ != "err_code"@,
        "alias"@ != "latitude"@,
        "alias"@ != "longitude"@,
        "alias"@ != "model"@,
        "alias"@ != "relay_state"@,
        "alias"@ != "sw_ver"@,
        "brightness"@ != "deviceId"@,
        "brightness"@ != "err_code"@,
        "brightness"@ != "latitude"@,
        "brightness"@ != "longitude"@,
        "brightness"@ != "model"@,
        "brightness"@ != "relay_state"@,
        "brightness"@ != "sw_ver"@,
        "deviceId"@ != "err_code"@,
        "deviceId"@ != "latitude"@,
        "deviceId"@ != "longitude"@,
        "deviceId"@ != "model"@,
        "deviceId"@ != "relay_state"@,
        "deviceId"@ != "sw_ver"@,
        "err_code"@ != "latitude"@,
        "err_code"@ != "longitude"@,
        "err_code"@ != "model"@,
        "err_code"@ != "relay_state"@,
        "err_code"@ != "sw_ver"@,
        "latitude"@ != "longitude"@,
        "latitude"@ != "model"@,
        "latitude"@ != "relay_state"@,
        "latitude"@ != "sw_ver"@,
        "longitude"@ != "model"@,
        "longitude"@ != "relay_state"@,
        "longitude"@ != "sw_ver"@,
        "model"@ != "relay_state"@,
        "model"@ != "sw_ver"@,
        "relay_state"@ != "sw_ver"@,
{
    reveal_strlit("alias");
    reveal_strlit("brightness");
    reveal_strlit("deviceId");
    reveal_strlit("err_code");
    reveal_strlit("latitude");
    reveal_strlit("longitude");
    reveal_strlit("model");
    reveal_strlit("relay_state");
    reveal_strlit("sw_ver");
    assert("alias"@.len() == 5 && "alias"@[0] == 'a' && "alias"@[1] == 'l' && "alias"@[2] == 'i');
    assert("brightness"@.len() == 10 && "brightness"@[0] == 'b' && "brightness"@[1] == 'r' && "brightness"@[2] == 'i');
    assert("deviceId"@.len() == 8 && "deviceId"@[0] == 'd' && "deviceId"@[1] == 'e' && "deviceId"@[2] == 'v');
    assert("err_code"@.len() == 8 && "err_code"@[0] == 'e' && "err_code"@[1] == 'r' && "err_code"@[2] == 'r');
    assert("latitude"@.len() == 8 && "latitude"@[0] == 'l' && "latitude"@[1] == 'a' && "latitude"@[2] == 't');
    assert("longitude"@.len() == 9 && "longitude"@[0] == 'l' && "longitude"@[1] == 'o' && "longitude"@[2] == 'n');
    assert("model"@.len() == 5 && "model"@[0] == 'm' && "model"@[1] == 'o' && "model"@[2] == 'd');
    assert("relay_state"@.len() == 11 && "relay_state"@[0] == 'r' && "relay_state"@[1] == 'e' && "relay_state"@[2] == 'l');
    assert("sw_ver"@.len() == 6 && "sw_ver"@[0] == 's' && "sw_ver"@[1] == 'w' && "sw_ver"@[2] == '_');
}

/// A mock outlet says of itself what it is: its relay is one where it is on and zero where it is
/// off, and its brightness is there where it is a dimmer.
pub proof fn law_outlets_describe_themselves(plug: SmartPlug)
    ensures
        ({
            let document = sysinfo_tree(plug);
            &&& crate::json::tree_member(document, "alias"@) == Some(Tree::Text(plug.alias@))
            &&& crate::json::tree_member(document, "deviceId"@) == Some(
                Tree::Text(plug.device_id@),
            )
            &&& crate::json::tree_member(document, "model"@) == Some(Tree::Text(plug.model@))
            &&& crate::json::tree_member(document, "sw_ver"@) == Some(
                Tree::Text(plug.software_version@),
            )
            &&& crate::json::tree_member(document, "err_code"@) == Some(crate::json::natural(0))
            &&& crate::json::tree_member(document, "relay_state"@) == Some(
                crate::json::natural(
                    if plug.relay_on {
                        1
                    } else {
                        0
                    },
                ),
            )
            &&& plug.brightness is Some ==> crate::json::tree_member(document, "brightness"@)
                == Some(crate::json::natural(plug.brightness->0 as int))
            &&& plug.brightness is None ==> crate::json::tree_member(document, "brightness"@)
                == Some(Tree::Null)
            &&& crate::json::tree_member(document, "latitude"@) == Some(degrees_tree(plug.latitude))
            &&& crate::json::tree_member(document, "longitude"@) == Some(
                degrees_tree(plug.longitude),
            )
        }),
{
    lemma_sysinfo_words();
    let members = sysinfo_tree(plug)->Object_0;
    crate::json::law_members_are_found(members, "alias"@, 0);
    crate::json::law_members_are_found(members, "brightness"@, 1);
    crate::json::law_members_are_found(members, "deviceId"@, 2);
    crate::json::law_members_are_found(members, "err_code"@, 3);
    crate::json::law_members_are_found(members, "latitude"@, 4);
    crate::json::law_members_are_found(members, "longitude"@, 5);
    crate::json::law_members_are_found(members, "model"@, 6);
    crate::json::law_members_are_found(members, "relay_state"@, 7);
    crate::json::law_members_are_found(members, "sw_ver"@, 8);
}

proof fn lemma_list_words()
    ensures
        "enable"@ != "err_code"@,
        "enable"@ != "rule_list"@,
        "enable"@ != "version"@,
        "err_code"@ != "rule_list"@,
        "err_code"@ != "version"@,
        "rule_list"@ != "version"@,
{
    reveal_strlit("enable");
    reveal_strlit("err_code");
    reveal_strlit("rule_list");
    reveal_strlit("version");
    assert("enable"@.len() == 6 && "enable"@[0] == 'e' && "enable"@[1] == 'n' && "enable"@[2] == 'a');
    assert("err_code"@.len() == 8 && "err_code"@[0] == 'e' && "err_code"@[1] == 'r' && "err_code"@[2] == 'r');
    assert("rule_list"@.len() == 9 && "rule_list"@[0] == 'r' && "rule_list"@[1] == 'u' && "rule_list"@[2] == 'l');
    assert("version"@.len() == 7 && "version"@[0] == 'v' && "version"@[1] == 'e' && "version"@[2] == 'r');
}

/// Rules are listed in their order, as enabled, and without an error.
pub proof fn law_rules_are_listed(rules: Seq<Tree>)
    ensures
        ({
            let document = rules_tree(rules);
            &&& crate::json::tree_member(document, "rule_list"@) == Some(Tree::Array(rules))
            &&& crate::json::tree_member(document, "enable"@) == Some(crate::json::natural(1))
            &&& crate::json::tree_member(document, "err_code"@) == Some(crate::json::natural(0))
            &&& crate::json::tree_member(document, "version"@) == Some(crate::json::natural(2))
        }),
{
    lemma_list_words();
    let members = rules_tree(rules)->Object_0;
    crate::json::law_members_are_found(members, "enable"@, 0);
    crate::json::law_members_are_found(members, "err_code"@, 1);
    crate::json::law_members_are_found(members, "rule_list"@, 2);
    crate::json::law_members_are_found(members, "version"@, 3);
}

/// Countdowns are numbered: each has an identity of its own, which is the one that is answered.
pub proof fn law_countdowns_are_numbered(state: OutletState, number: nat, other: nat)
    requires
        number != other,
    ensures
        countdown_id(number) != countdown_id(other),
        countdown_id(number) == "mock-countdown-"@ + crate::text::decimal(number),
        crate::json::tree_member(reply(state, MockCommand::AddCountdown), "id"@) == Some(
            Tree::Text(countdown_id(state.next_rule_id)),
        ),
        crate::json::tree_member(reply(state, MockCommand::AddCountdown), "err_code"@) == Some(
            crate::json::natural(0),
        ),
{
    let prefix = "mock-countdown-"@;
    crate::text::law_numeral_spells_number(number);
    crate::text::law_numeral_spells_number(other);
    if countdown_id(number) == countdown_id(other) {
        let left = crate::text::decimal(number);
        let right = crate::text::decimal(other);
        assert((prefix + left).skip(prefix.len() as int) =~= left);
        assert((prefix + right).skip(prefix.len() as int) =~= right);
    }
    reveal_strlit("err_code");
    reveal_strlit("id");
    assert("err_code"@.len() != "id"@.len());
    let members = reply(state, MockCommand::AddCountdown)->Object_0;
    crate::json::law_members_are_found(members, "err_code"@, 0);
    crate::json::law_members_are_found(members, "id"@, 1);
}

/// Each command of a mock outlet is named by its module and its own name.
pub proof fn law_commands_are_named(dimmer: bool)
    ensures
        command_of("system"@, "get_sysinfo"@, dimmer) == MockCommand::Describe,
        command_of("system"@, "set_relay_state"@, dimmer) == MockCommand::SwitchRelay,
        command_of("smartlife.iot.dimmer"@, "set_brightness"@, true) == MockCommand::SetBrightness,
        command_of("smartlife.iot.dimmer"@, "set_brightness"@, false) == MockCommand::Unknown,
        command_of("count_down"@, "get_rules"@, dimmer) == MockCommand::ListCountdowns,
        command_of("count_down"@, "add_rule"@, dimmer) == MockCommand::AddCountdown,
        command_of("count_down"@, "delete_rule"@, dimmer) == MockCommand::DeleteCountdown,
        command_of("count_down"@, "delete_all_rules"@, dimmer) == MockCommand::DeleteCountdowns,
        command_of("schedule"@, "get_rules"@, dimmer) == MockCommand::ListSchedules,
        command_of("schedule"@, "delete_rule"@, dimmer) == MockCommand::DeleteSchedule,
        command_of("schedule"@, "add_rule"@, dimmer) == MockCommand::Unknown,
{
    lemma_words();
    reveal_strlit("get_sysinfo");
    reveal_strlit("set_relay_state");
    assert("get_sysinfo"@.len() != "set_relay_state"@.len());
}

/// What a mock outlet is asked for it answers: its rules where they are listed, itself where it is
/// described, and a failure where it does not know the command.
pub proof fn law_outlets_answer(state: OutletState)
    ensures
        reply(state, MockCommand::Describe) == sysinfo_tree(state.plug),
        reply(state, MockCommand::ListCountdowns) == rules_tree(state.countdowns),
        reply(state, MockCommand::ListSchedules) == rules_tree(state.schedules),
        crate::client::reported_code(reply(state, MockCommand::Unknown)) == Some(-1i64),
        crate::client::reported_code(reply(state, MockCommand::SwitchRelay)) is None,
        crate::client::reported_code(reply(state, MockCommand::SetBrightness)) is None,
        crate::client::reported_code(reply(state, MockCommand::DeleteCountdown)) is None,
        crate::client::reported_code(reply(state, MockCommand::DeleteCountdowns)) is None,
        crate::client::reported_code(reply(state, MockCommand::DeleteSchedule)) is None,
{
    let failed = reply(state, MockCommand::Unknown)->Object_0;
    crate::json::law_members_are_found(failed, "err_code"@, 0);
    let done = success()->Object_0;
    crate::json::law_members_are_found(done, "err_code"@, 0);
}

} // verus!
