//! Requests to a plug, and what is made of its answers.
use crate::error::Error;
use crate::json::{read_json, Json, Tree};
use crate::plug::Address;
use crate::text::decimal_text;
use crate::wire::{encode_frame, encrypt};
use std::time::Duration;
use vstd::prelude::*;
use vstd::string::*;

verus! {

/// The length of a `Duration` in nanoseconds.
pub uninterp spec fn nanoseconds(duration: Duration) -> nat;

/// A `Duration` of that many whole seconds (`Duration::from_secs`).
pub assume_specification[ Duration::from_secs ](seconds: u64) -> (duration: Duration)
    ensures
        nanoseconds(duration) == seconds * 1_000_000_000,
;

/// The whole seconds in a `Duration`, its fraction left out (`Duration::as_secs`).
pub assume_specification[ Duration::as_secs ](duration: &Duration) -> (seconds: u64)
    ensures
        seconds == nanoseconds(*duration) / 1_000_000_000,
;

/// The module that takes network settings where the usual one is missing.
pub open spec fn onboarding_module() -> Seq<char> {
    "smartlife.iot.common.softaponboarding"@
}

/// A client of plugs: how long it waits for a connection, an answer or a write.
#[derive(Debug)]
pub struct SmartHomeClient {
    timeout: Duration,
}

/// One command to the plug at an address, with the time to wait for its answer.
#[derive(Debug)]
pub struct Request {
    pub address: Address,
    pub timeout: Duration,
    pub module: String,
    pub command: String,
    pub arguments: Json,
}

/// A frame for the plug at an address, with the time to wait for the frame that answers it.
#[derive(Debug)]
pub struct Exchange {
    pub address: Address,
    pub timeout: Duration,
    pub frame: Vec<u8>,
}

/// Whether a frame carries a document to the plug at an address, and waits as long as the
/// client does. A document that cannot be written or is too long is refused.
pub open spec fn carries(
    exchange: Result<Exchange, Error>,
    client: SmartHomeClient,
    address: Address,
    document: Tree,
) -> bool {
    match crate::json::normal(document) {
        None => exchange matches Err(Error::Json(_)),
        Some(tree) => {
            let payload = crate::json::document_written(tree);
            if payload.len() > u32::MAX {
                exchange matches Err(Error::ResponseTooLarge(length)) && length == payload.len()
            } else {
                exchange matches Ok(exchange) && exchange.address == address && exchange.timeout
                    == client.timeout() && exchange.frame@ == crate::wire::framed(payload)
            }
        },
    }
}

/// The document that asks a plug for a command.
pub open spec fn envelope(module: Seq<char>, command: Seq<char>, arguments: Tree) -> Tree {
    Tree::Object(seq![(module, Tree::Object(seq![(command, arguments)]))])
}

/// The code of an error that a part of an answer reports.
pub open spec fn reported_code(part: Tree) -> Option<i64> {
    match crate::json::tree_member(part, "err_code"@) {
        Some(code) => match crate::json::tree_integer(code) {
            Some(value) => if value == 0 {
                None
            } else {
                Some(value)
            },
            None => None,
        },
        None => None,
    }
}

/// The text that a part of an answer gives with an error.
pub open spec fn reported_message(part: Tree) -> Option<Seq<char>> {
    match crate::json::tree_member(part, "err_msg"@) {
        Some(message) => crate::json::tree_text(message),
        None => None,
    }
}

/// What an answer says to a command.
pub enum Answer {
    /// The answer does not speak of the module.
    ModuleOmitted,
    /// The answer does not speak of the command.
    CommandOmitted,
    /// The module or the command failed.
    Failed(i64, Option<Seq<char>>),
    /// The command succeeded with this result.
    Given(Tree),
}

/// What the answer says to a command. An error of the module counts before one of the command.
pub open spec fn answer(response: Tree, module: Seq<char>, command: Seq<char>) -> Answer {
    match crate::json::tree_member(response, module) {
        None => Answer::ModuleOmitted,
        Some(part) => match reported_code(part) {
            Some(code) => Answer::Failed(code, reported_message(part)),
            None => match crate::json::tree_member(part, command) {
                None => Answer::CommandOmitted,
                Some(result) => match reported_code(result) {
                    Some(code) => Answer::Failed(code, reported_message(result)),
                    None => Answer::Given(result),
                },
            },
        },
    }
}

/// The document that asks a plug for a command.
pub fn command_request(module: &str, command: &str, arguments: Json) -> (request: Json)
    ensures
        request.tree() == envelope(module@, command@, arguments.tree()),
{
    Json::empty().with(module, Json::empty().with(command, arguments))
}

/// The error that a part of an answer reports.
fn check_protocol_error(response: &Json, module: &str, command: &str) -> (result: Result<
    (),
    Error,
>)
    ensures
        match reported_code(response.tree()) {
            None => result is Ok,
            Some(code) => result is Err && protocol_failure(
                result->Err_0,
                module@,
                command@,
                code,
                reported_message(response.tree()),
            ),
        },
{
    let code: i64 = match response.get("err_code") {
        Some(code) => match code.as_i64() {
            Some(code) => code,
            None => return Ok(()),
        },
        None => return Ok(()),
    };
    if code == 0 {
        return Ok(());
    }
    let message = match response.get("err_msg") {
        Some(message) => match message.as_str() {
            Some(text) => Some(text.to_owned()),
            None => None,
        },
        None => None,
    };
    Err(Error::Protocol { module: module.to_owned(), command: command.to_owned(), code, message })
}

/// Whether this is the error that a plug reported to a command.
pub open spec fn protocol_failure(
    error: Error,
    module: Seq<char>,
    command: Seq<char>,
    code: i64,
    message: Option<Seq<char>>,
) -> bool {
    match error {
        Error::Protocol { module: failed_module, command: failed_command, code: failed, message: text } => {
            &&& failed_module@ == module
            &&& failed_command@ == command
            &&& failed == code
            &&& match (text, message) {
                (Some(text), Some(message)) => text@ == message,
                (None, None) => true,
                _ => false,
            }
        },
        _ => false,
    }
}

/// What an answer gives to a command.
pub fn command_response(response: Json, module: &str, command: &str) -> (result: Result<
    Json,
    Error,
>)
    ensures
        match answer(response.tree(), module@, command@) {
            Answer::ModuleOmitted => result is Err && crate::error::invalid_response(
                result->Err_0,
                "response omitted module "@ + module@,
            ),
            Answer::CommandOmitted => result is Err && crate::error::invalid_response(
                result->Err_0,
                "response omitted command "@ + module@ + "."@ + command@,
            ),
            Answer::Failed(code, message) => result is Err && protocol_failure(
                result->Err_0,
                module@,
                command@,
                code,
                message,
            ),
            Answer::Given(given) => result is Ok && result->Ok_0.tree() == given,
        },
{
    let module_response = match response.get(module) {
        Some(part) => part,
        None => {
            let mut text = "response omitted module ".to_owned();
            text.append(module);
            return Err(Error::InvalidResponse(text));
        },
    };
    match check_protocol_error(module_response, module, command) {
        Ok(_) => {},
        Err(error) => return Err(error),
    }
    let command_response = match module_response.get(command) {
        Some(part) => part,
        None => {
            let mut text = "response omitted command ".to_owned();
            text.append(module);
            text.append(".");
            text.append(command);
            return Err(Error::InvalidResponse(text));
        },
    };
    match check_protocol_error(command_response, module, command) {
        Ok(_) => {},
        Err(error) => return Err(error),
    }
    Ok(command_response.duplicate())
}

/// An answer in the form of the request that it answers gives what the request held, unless
/// that reports an error.
pub proof fn law_answer_opens_envelope(module: Seq<char>, command: Seq<char>, result: Tree)
    requires
        reported_code(result) is None,
        reported_code(Tree::Object(seq![(command, result)])) is None,
    ensures
        answer(envelope(module, command, result), module, command) == Answer::Given(result),
{
}

impl Request {
    /// The document that asks for this command.
    pub fn document(self) -> (document: Json)
        ensures
            document.tree() == envelope(self.module@, self.command@, self.arguments.tree()),
    {
        command_request(self.module.as_str(), self.command.as_str(), self.arguments)
    }

    /// This request to the module that takes network settings where the usual one is missing.
    pub fn onboarding(self) -> (request: Request)
        ensures
            request.address == self.address,
            request.timeout == self.timeout,
            request.module@ == onboarding_module(),
            request.command == self.command,
            request.arguments == self.arguments,
    {
        Request {
            address: self.address,
            timeout: self.timeout,
            module: "smartlife.iot.common.softaponboarding".to_owned(),
            command: self.command,
            arguments: self.arguments,
        }
    }
}

/// Whether a plug answered that it lacks a module, so that network settings are to be asked
/// of another.
pub fn lacks_module(error: &Error) -> (result: bool)
    ensures
        result == (error matches Error::Protocol { code, .. } && code == -1),
{
    match error {
        Error::Protocol { code, .. } => *code == -1,
        _ => false,
    }
}

/// Whether this request asks the plug at an address for a command, and waits as long as the
/// client does.
pub open spec fn asks(
    request: Request,
    client: SmartHomeClient,
    address: Address,
    module: Seq<char>,
    command: Seq<char>,
    arguments: Tree,
) -> bool {
    &&& request.address == address
    &&& request.timeout == client.timeout()
    &&& request.module@ == module
    &&& request.command@ == command
    &&& request.arguments.tree() == arguments
}

/// The number that stands for a truth value in the protocol.
pub open spec fn flag(on: bool) -> Tree {
    crate::json::natural(
        if on {
            1
        } else {
            0
        },
    )
}

fn flag_of(on: bool) -> (value: Json)
    ensures
        value.tree() == flag(on),
{
    if on {
        Json::unsigned(1)
    } else {
        Json::unsigned(0)
    }
}

/// The object with one member.
pub open spec fn single(name: Seq<char>, value: Tree) -> Tree {
    Tree::Object(seq![(name, value)])
}

/// The whole seconds of a duration as a document.
pub open spec fn seconds_of(duration: Duration) -> Tree {
    crate::json::natural((nanoseconds(duration) / 1_000_000_000) as int)
}

/// The confirmation that a plug is to forget everything.
#[derive(Debug, Clone, Copy, PartialEq, Eq, Structural)]
pub enum FactoryResetConfirmation {
    EraseAllSettings,
}

/// The object without members.
pub open spec fn empty_object() -> Tree {
    Tree::Object(seq![])
}

impl SmartHomeClient {
    /// How long the client waits.
    pub closed spec fn timeout(self) -> Duration {
        self.timeout
    }

    /// A client that waits five seconds.
    pub fn new() -> (client: SmartHomeClient)
        ensures
            nanoseconds(client.timeout()) == 5_000_000_000,
    {
        SmartHomeClient { timeout: Duration::from_secs(5) }
    }

    /// A client that waits that long.
    pub fn with_timeout(timeout: Duration) -> (client: SmartHomeClient)
        ensures
            client.timeout() == timeout,
    {
        SmartHomeClient { timeout }
    }

    /// The request for a command.
    pub fn query_command(
        &self,
        address: Address,
        module: &str,
        command: &str,
        arguments: Json,
    ) -> (request: Request)
        ensures
            asks(request, *self, address, module@, command@, arguments.tree()),
    {
        Request {
            address,
            timeout: self.timeout,
            module: module.to_owned(),
            command: command.to_owned(),
            arguments,
        }
    }

    /// Asks what the plug is.
    pub fn get_sysinfo(&self, address: Address) -> (request: Request)
        ensures
            asks(request, *self, address, "system"@, "get_sysinfo"@, empty_object()),
    {
        self.query_command(address, "system", "get_sysinfo", Json::empty())
    }

    /// Switches the relay.
    pub fn set_relay(&self, address: Address, on: bool) -> (request: Request)
        ensures
            asks(request, *self, address, "system"@, "set_relay_state"@, single("state"@, flag(on))),
    {
        self.query_command(
            address,
            "system",
            "set_relay_state",
            Json::empty().with("state", flag_of(on)),
        )
    }

    /// Switches the light on the plug, which the protocol counts the other way round.
    pub fn set_led(&self, address: Address, on: bool) -> (request: Request)
        ensures
            asks(request, *self, address, "system"@, "set_led_off"@, single("off"@, flag(!on))),
    {
        self.query_command(
            address,
            "system",
            "set_led_off",
            Json::empty().with("off", flag_of(!on)),
        )
    }

    /// Starts the plug anew after a delay.
    pub fn reboot(&self, address: Address, delay: Duration) -> (request: Request)
        ensures
            asks(request, *self, address, "system"@, "reboot"@, single("delay"@, seconds_of(delay))),
    {
        self.query_command(
            address,
            "system",
            "reboot",
            Json::empty().with("delay", Json::unsigned(delay.as_secs())),
        )
    }

    /// Asks what the plug draws now.
    pub fn get_realtime_energy(&self, address: Address) -> (request: Request)
        ensures
            asks(request, *self, address, "emeter"@, "get_realtime"@, empty_object()),
    {
        self.query_command(address, "emeter", "get_realtime", Json::empty())
    }

    /// Asks what was drawn on each day of a month, which must be one of the twelve.
    pub fn get_daily_energy(&self, address: Address, year: u16, month: u8) -> (request: Result<
        Request,
        Error,
    >)
        ensures
            if 1 <= month <= 12 {
                request is Ok && asks(
                    request->Ok_0,
                    *self,
                    address,
                    "emeter"@,
                    "get_daystat"@,
                    Tree::Object(
                        seq![
                            ("month"@, crate::json::natural(month as int)),
                            ("year"@, crate::json::natural(year as int)),
                        ],
                    ),
                )
            } else {
                request is Err && crate::error::invalid_input(
                    request->Err_0,
                    "month must be between 1 and 12, got "@ + crate::text::decimal(month as nat),
                )
            },
    {
        if month < 1 || month > 12 {
            let mut text = "month must be between 1 and 12, got ".to_owned();
            text.append(decimal_text(month as u64).as_str());
            return Err(Error::InvalidInput(text));
        }
        let arguments = Json::empty().with("month", Json::unsigned(month as u64)).with(
            "year",
            Json::unsigned(year as u64),
        );
        assert(arguments.tree()->Object_0 =~= seq![
            ("month"@, crate::json::natural(month as int)),
            ("year"@, crate::json::natural(year as int)),
        ]);
        Ok(self.query_command(address, "emeter", "get_daystat", arguments))
    }

    /// Asks what was drawn in each month of a year.
    pub fn get_monthly_energy(&self, address: Address, year: u16) -> (request: Request)
        ensures
            asks(
                request,
                *self,
                address,
                "emeter"@,
                "get_monthstat"@,
                single("year"@, crate::json::natural(year as int)),
            ),
    {
        self.query_command(
            address,
            "emeter",
            "get_monthstat",
            Json::empty().with("year", Json::unsigned(year as u64)),
        )
    }

    /// Permanently erases the plug's stored energy history.
    pub fn erase_energy_statistics(&self, address: Address) -> (request: Request)
        ensures
            asks(request, *self, address, "emeter"@, "erase_emeter_stat"@, empty_object()),
    {
        self.query_command(address, "emeter", "erase_emeter_stat", Json::empty())
    }

    /// Asks for the rules of a module.
    pub fn get_rules(&self, address: Address, module: &str) -> (request: Request)
        ensures
            asks(request, *self, address, module@, "get_rules"@, empty_object()),
    {
        self.query_command(address, module, "get_rules", Json::empty())
    }

    /// Adds a rule to a module.
    pub fn add_rule(&self, address: Address, module: &str, rule: Json) -> (request: Request)
        ensures
            asks(request, *self, address, module@, "add_rule"@, rule.tree()),
    {
        self.query_command(address, module, "add_rule", rule)
    }

    /// Replaces the rule of a module that has this identity, which must not be empty.
    pub fn edit_rule(&self, address: Address, module: &str, id: &Option<String>, rule: Json) -> (
        request: Result<Request, Error>)
        ensures
            match *id {
                Some(text) if text@.len() > 0 => request is Ok && asks(
                    request->Ok_0,
                    *self,
                    address,
                    module@,
                    "edit_rule"@,
                    rule.tree(),
                ),
                _ => request is Err && crate::error::invalid_input(
                    request->Err_0,
                    "editing a rule requires its device ID"@,
                ),
            },
    {
        match require_rule_id(id) {
            Ok(_) => Ok(self.query_command(address, module, "edit_rule", rule)),
            Err(error) => Err(error),
        }
    }

    /// Deletes the rule of a module that has this identity, which must not be empty.
    pub fn delete_rule(&self, address: Address, module: &str, id: &str) -> (request: Result<
        Request,
        Error,
    >)
        ensures
            if id@.len() > 0 {
                request is Ok && asks(
                    request->Ok_0,
                    *self,
                    address,
                    module@,
                    "delete_rule"@,
                    single("id"@, Tree::Text(id@)),
                )
            } else {
                request is Err && crate::error::invalid_input(
                    request->Err_0,
                    "rule ID cannot be empty"@,
                )
            },
    {
        if id.unicode_len() == 0 {
            return Err(Error::InvalidInput("rule ID cannot be empty".to_owned()));
        }
        Ok(
            self.query_command(
                address,
                module,
                "delete_rule",
                Json::empty().with("id", Json::text(id)),
            ),
        )
    }

    /// Deletes all rules of a module.
    pub fn delete_all_rules(&self, address: Address, module: &str) -> (request: Request)
        ensures
            asks(request, *self, address, module@, "delete_all_rules"@, empty_object()),
    {
        self.query_command(address, module, "delete_all_rules", Json::empty())
    }

    /// Switches all rules of a module on or off.
    pub fn set_rules_enabled(&self, address: Address, module: &str, enabled: bool) -> (request:
        Request)
        ensures
            asks(
                request,
                *self,
                address,
                module@,
                "set_overall_enable"@,
                single("enable"@, flag(enabled)),
            ),
    {
        self.query_command(
            address,
            module,
            "set_overall_enable",
            Json::empty().with("enable", flag_of(enabled)),
        )
    }

    /// Asks for the countdowns of a plug.
    pub fn get_countdown_rules(&self, address: Address) -> (request: Request)
        ensures
            asks(request, *self, address, "count_down"@, "get_rules"@, empty_object()),
    {
        self.get_rules(address, "count_down")
    }

    /// Adds to the countdowns of a plug.
    pub fn add_countdown_rule(&self, address: Address, rule: Json) -> (request: Request)
        ensures
            asks(request, *self, address, "count_down"@, "add_rule"@, rule.tree()),
    {
        self.add_rule(address, "count_down", rule)
    }

    /// Replaces one of the countdowns of a plug, which must have an identity.
    pub fn edit_countdown_rule(&self, address: Address, id: &Option<String>, rule: Json) -> (request:
        Result<Request, Error>)
        ensures
            match *id {
                Some(text) if text@.len() > 0 => request is Ok && asks(
                    request->Ok_0,
                    *self,
                    address,
                    "count_down"@,
                    "edit_rule"@,
                    rule.tree(),
                ),
                _ => request is Err && crate::error::invalid_input(
                    request->Err_0,
                    "editing a rule requires its device ID"@,
                ),
            },
    {
        self.edit_rule(address, "count_down", id, rule)
    }

    /// Deletes one of the countdowns of a plug by its identity.
    pub fn delete_countdown_rule(&self, address: Address, id: &str) -> (request: Result<
        Request,
        Error,
    >)
        ensures
            if id@.len() > 0 {
                request is Ok && asks(
                    request->Ok_0,
                    *self,
                    address,
                    "count_down"@,
                    "delete_rule"@,
                    single("id"@, Tree::Text(id@)),
                )
            } else {
                request is Err && crate::error::invalid_input(
                    request->Err_0,
                    "rule ID cannot be empty"@,
                )
            },
    {
        self.delete_rule(address, "count_down", id)
    }

    /// Deletes the countdowns of a plug.
    pub fn delete_all_countdown_rules(&self, address: Address) -> (request: Request)
        ensures
            asks(request, *self, address, "count_down"@, "delete_all_rules"@, empty_object()),
    {
        self.delete_all_rules(address, "count_down")
    }

    /// Asks for the schedules of a plug.
    pub fn get_schedule_rules(&self, address: Address) -> (request: Request)
        ensures
            asks(request, *self, address, "schedule"@, "get_rules"@, empty_object()),
    {
        self.get_rules(address, "schedule")
    }

    /// Adds to the schedules of a plug.
    pub fn add_schedule_rule(&self, address: Address, rule: Json) -> (request: Request)
        ensures
            asks(request, *self, address, "schedule"@, "add_rule"@, rule.tree()),
    {
        self.add_rule(address, "schedule", rule)
    }

    /// Replaces one of the schedules of a plug, which must have an identity.
    pub fn edit_schedule_rule(&self, address: Address, id: &Option<String>, rule: Json) -> (request:
        Result<Request, Error>)
        ensures
            match *id {
                Some(text) if text@.len() > 0 => request is Ok && asks(
                    request->Ok_0,
                    *self,
                    address,
                    "schedule"@,
                    "edit_rule"@,
                    rule.tree(),
                ),
                _ => request is Err && crate::error::invalid_input(
                    request->Err_0,
                    "editing a rule requires its device ID"@,
                ),
            },
    {
        self.edit_rule(address, "schedule", id, rule)
    }

    /// Deletes one of the schedules of a plug by its identity.
    pub fn delete_schedule_rule(&self, address: Address, id: &str) -> (request: Result<
        Request,
        Error,
    >)
        ensures
            if id@.len() > 0 {
                request is Ok && asks(
                    request->Ok_0,
                    *self,
                    address,
                    "schedule"@,
                    "delete_rule"@,
                    single("id"@, Tree::Text(id@)),
                )
            } else {
                request is Err && crate::error::invalid_input(
                    request->Err_0,
                    "rule ID cannot be empty"@,
                )
            },
    {
        self.delete_rule(address, "schedule", id)
    }

    /// Deletes the schedules of a plug.
    pub fn delete_all_schedule_rules(&self, address: Address) -> (request: Request)
        ensures
            asks(request, *self, address, "schedule"@, "delete_all_rules"@, empty_object()),
    {
        self.delete_all_rules(address, "schedule")
    }

    /// Switches the schedules of a plug on or off.
    pub fn set_schedules_enabled(&self, address: Address, enabled: bool) -> (request: Request)
        ensures
            asks(
                request,
                *self,
                address,
                "schedule"@,
                "set_overall_enable"@,
                single("enable"@, flag(enabled)),
            ),
    {
        self.set_rules_enabled(address, "schedule", enabled)
    }

    /// Asks for the away-mode rules of a plug.
    pub fn get_anti_theft_rules(&self, address: Address) -> (request: Request)
        ensures
            asks(request, *self, address, "anti_theft"@, "get_rules"@, empty_object()),
    {
        self.get_rules(address, "anti_theft")
    }

    /// Adds to the away-mode rules of a plug.
    pub fn add_anti_theft_rule(&self, address: Address, rule: Json) -> (request: Request)
        ensures
            asks(request, *self, address, "anti_theft"@, "add_rule"@, rule.tree()),
    {
        self.add_rule(address, "anti_theft", rule)
    }

    /// Replaces one of the away-mode rules of a plug, which must have an identity.
    pub fn edit_anti_theft_rule(&self, address: Address, id: &Option<String>, rule: Json) -> (request:
        Result<Request, Error>)
        ensures
            match *id {
                Some(text) if text@.len() > 0 => request is Ok && asks(
                    request->Ok_0,
                    *self,
                    address,
                    "anti_theft"@,
                    "edit_rule"@,
                    rule.tree(),
                ),
                _ => request is Err && crate::error::invalid_input(
                    request->Err_0,
                    "editing a rule requires its device ID"@,
                ),
            },
    {
        self.edit_rule(address, "anti_theft", id, rule)
    }

    /// Deletes one of the away-mode rules of a plug by its identity.
    pub fn delete_anti_theft_rule(&self, address: Address, id: &str) -> (request: Result<
        Request,
        Error,
    >)
        ensures
            if id@.len() > 0 {
                request is Ok && asks(
                    request->Ok_0,
                    *self,
                    address,
                    "anti_theft"@,
                    "delete_rule"@,
                    single("id"@, Tree::Text(id@)),
                )
            } else {
                request is Err && crate::error::invalid_input(
                    request->Err_0,
                    "rule ID cannot be empty"@,
                )
            },
    {
        self.delete_rule(address, "anti_theft", id)
    }

    /// Deletes the away-mode rules of a plug.
    pub fn delete_all_anti_theft_rules(&self, address: Address) -> (request: Request)
        ensures
            asks(request, *self, address, "anti_theft"@, "delete_all_rules"@, empty_object()),
    {
        self.delete_all_rules(address, "anti_theft")
    }

    /// Switches the away-mode rules of a plug on or off.
    pub fn set_anti_theft_enabled(&self, address: Address, enabled: bool) -> (request: Request)
        ensures
            asks(
                request,
                *self,
                address,
                "anti_theft"@,
                "set_overall_enable"@,
                single("enable"@, flag(enabled)),
            ),
    {
        self.set_rules_enabled(address, "anti_theft", enabled)
    }

    /// Sets the brightness of a dimmer.
    pub fn set_brightness(&self, address: Address, brightness: u8) -> (request: Request)
        ensures
            asks(
                request,
                *self,
                address,
                "smartlife.iot.dimmer"@,
                "set_brightness"@,
                single("brightness"@, crate::json::natural(brightness as int)),
            ),
    {
        self.query_command(
            address,
            "smartlife.iot.dimmer",
            "set_brightness",
            Json::empty().with("brightness", Json::unsigned(brightness as u64)),
        )
    }

    /// The frame that carries any document to the plug at an address.
    pub fn query_raw(&self, address: Address, request: &Json) -> (exchange: Result<Exchange, Error>)
        ensures
            carries(exchange, *self, address, request.tree()),
    {
        match encode_frame(request) {
            Ok(frame) => Ok(Exchange { address, timeout: self.timeout, frame }),
            Err(error) => Err(error),
        }
    }

    /// The frame that carries a document, given by its text, to the plug at an address.
    pub fn query_raw_json(&self, address: Address, request: &str) -> (exchange: Result<
        Exchange,
        Error,
    >)
        ensures
            match crate::json::document_read(request.spec_bytes()) {
                Some(tree) => carries(exchange, *self, address, tree),
                None => exchange matches Err(Error::Json(_)),
            },
    {
        match read_json(request.as_bytes()) {
            Ok(document) => self.query_raw(address, &document),
            Err(error) => Err(Error::from(error)),
        }
    }

    /// Asks what the schedule does next.
    pub fn get_next_schedule_action(&self, address: Address) -> (request: Request)
        ensures
            asks(request, *self, address, "schedule"@, "get_next_action"@, empty_object()),
    {
        self.query_command(address, "schedule", "get_next_action", Json::empty())
    }

    /// Permanently erases schedule runtime statistics.
    pub fn erase_schedule_runtime_statistics(&self, address: Address) -> (request: Request)
        ensures
            asks(request, *self, address, "schedule"@, "erase_runtime_stat"@, empty_object()),
    {
        self.query_command(address, "schedule", "erase_runtime_stat", Json::empty())
    }

    /// Asks which wireless networks the plug sees.
    pub fn scan_wifi(&self, address: Address, refresh: bool) -> (request: Request)
        ensures
            asks(
                request,
                *self,
                address,
                "netif"@,
                "get_scaninfo"@,
                single("refresh"@, flag(refresh)),
            ),
    {
        self.query_command(
            address,
            "netif",
            "get_scaninfo",
            Json::empty().with("refresh", flag_of(refresh)),
        )
    }

    /// Changes the plug's wireless network, which must have a name. The plug may become
    /// unreachable.
    pub fn configure_wifi(&self, address: Address, ssid: &str, password: &str, key_type: u8) -> (
        request: Result<Request, Error>)
        ensures
            if ssid@.len() > 0 {
                request is Ok && asks(
                    request->Ok_0,
                    *self,
                    address,
                    "netif"@,
                    "set_stainfo"@,
                    Tree::Object(
                        seq![
                            ("key_type"@, crate::json::natural(key_type as int)),
                            ("password"@, Tree::Text(password@)),
                            ("ssid"@, Tree::Text(ssid@)),
                        ],
                    ),
                )
            } else {
                request is Err && crate::error::invalid_input(
                    request->Err_0,
                    "Wi-Fi SSID cannot be empty"@,
                )
            },
    {
        if ssid.unicode_len() == 0 {
            return Err(Error::InvalidInput("Wi-Fi SSID cannot be empty".to_owned()));
        }
        let arguments = Json::empty().with("key_type", Json::unsigned(key_type as u64)).with(
            "password",
            Json::text(password),
        ).with("ssid", Json::text(ssid));
        assert(arguments.tree()->Object_0 =~= seq![
            ("key_type"@, crate::json::natural(key_type as int)),
            ("password"@, Tree::Text(password@)),
            ("ssid"@, Tree::Text(ssid@)),
        ]);
        Ok(self.query_command(address, "netif", "set_stainfo", arguments))
    }

    /// Asks how the plug stands with its cloud service.
    pub fn get_cloud_info(&self, address: Address) -> (request: Request)
        ensures
            asks(request, *self, address, "cnCloud"@, "get_info"@, empty_object()),
    {
        self.query_command(address, "cnCloud", "get_info", Json::empty())
    }

    /// Asks which firmware the cloud service offers.
    pub fn get_cloud_firmware_list(&self, address: Address) -> (request: Request)
        ensures
            asks(request, *self, address, "cnCloud"@, "get_intl_fw_list"@, empty_object()),
    {
        self.query_command(address, "cnCloud", "get_intl_fw_list", Json::empty())
    }

    /// Changes the cloud service, which must have a name. The connection to it may break.
    pub fn set_cloud_server(&self, address: Address, server: &str) -> (request: Result<
        Request,
        Error,
    >)
        ensures
            if server@.len() > 0 {
                request is Ok && asks(
                    request->Ok_0,
                    *self,
                    address,
                    "cnCloud"@,
                    "set_server_url"@,
                    single("server"@, Tree::Text(server@)),
                )
            } else {
                request is Err && crate::error::invalid_input(
                    request->Err_0,
                    "cloud server cannot be empty"@,
                )
            },
    {
        if server.unicode_len() == 0 {
            return Err(Error::InvalidInput("cloud server cannot be empty".to_owned()));
        }
        Ok(
            self.query_command(
                address,
                "cnCloud",
                "set_server_url",
                Json::empty().with("server", Json::text(server)),
            ),
        )
    }

    /// Ties the plug to an account. The protocol hardly conceals the credentials.
    pub fn bind_cloud(&self, address: Address, username: &str, password: &str) -> (request: Request)
        ensures
            asks(
                request,
                *self,
                address,
                "cnCloud"@,
                "bind"@,
                Tree::Object(
                    seq![
                        ("password"@, Tree::Text(password@)),
                        ("username"@, Tree::Text(username@)),
                    ],
                ),
            ),
    {
        let arguments = Json::empty().with("password", Json::text(password)).with(
            "username",
            Json::text(username),
        );
        assert(arguments.tree()->Object_0 =~= seq![
            ("password"@, Tree::Text(password@)),
            ("username"@, Tree::Text(username@)),
        ]);
        self.query_command(address, "cnCloud", "bind", arguments)
    }

    /// Permanently removes the plug's tie to an account.
    pub fn unbind_cloud(&self, address: Address) -> (request: Request)
        ensures
            asks(request, *self, address, "cnCloud"@, "unbind"@, empty_object()),
    {
        self.query_command(address, "cnCloud", "unbind", Json::empty())
    }

    /// Erases all settings and returns the plug to factory defaults.
    pub fn factory_reset(
        &self,
        address: Address,
        _confirmation: FactoryResetConfirmation,
        delay: Duration,
    ) -> (request: Request)
        ensures
            asks(request, *self, address, "system"@, "reset"@, single("delay"@, seconds_of(delay))),
    {
        self.query_command(
            address,
            "system",
            "reset",
            Json::empty().with("delay", Json::unsigned(delay.as_secs())),
        )
    }
}

impl Clone for SmartHomeClient {
    fn clone(&self) -> (client: SmartHomeClient)
        ensures
            client == *self,
    {
        SmartHomeClient { timeout: self.timeout }
    }
}

impl Default for SmartHomeClient {
    fn default() -> (client: SmartHomeClient)
        ensures
            nanoseconds(client.timeout()) == 5_000_000_000,
    {
        SmartHomeClient::new()
    }
}

/// The identity of a rule that is to be edited.
pub fn require_rule_id(id: &Option<String>) -> (result: Result<&str, Error>)
    ensures
        match *id {
            Some(text) if text@.len() > 0 => result is Ok && result->Ok_0@ == text@,
            _ => result is Err && crate::error::invalid_input(
                result->Err_0,
                "editing a rule requires its device ID"@,
            ),
        },
{
    match id {
        Some(text) => if text.as_str().unicode_len() > 0 {
            return Ok(text.as_str());
        },
        None => {},
    }
    Err(Error::InvalidInput("editing a rule requires its device ID".to_owned()))
}

/// The identity that a plug gave to a rule that was added.
pub fn added_rule_id(response: &Json) -> (id: Option<String>)
    ensures
        match crate::json::tree_member(response.tree(), "id"@) {
            Some(value) => match crate::json::tree_text(value) {
                Some(text) => id is Some && id->0@ == text,
                None => id is None,
            },
            None => id is None,
        },
{
    match response.get("id") {
        Some(value) => match value.as_str() {
            Some(text) => Some(text.to_owned()),
            None => None,
        },
        None => None,
    }
}

/// The datagram that asks every plug what it is.
pub fn discovery_datagram() -> (datagram: Vec<u8>)
    ensures
        datagram@ == crate::wire::encrypted("{\"system\":{\"get_sysinfo\":{}}}".spec_bytes()),
{
    encrypt("{\"system\":{\"get_sysinfo\":{}}}".as_bytes())
}

/// The number one stands for yes in the protocol, and zero for no.
pub proof fn law_one_stands_for_yes(on: bool)
    ensures
        crate::json::tree_natural(flag(on)) is Some,
        crate::json::tree_natural(flag(on))->0 == 1 <==> on,
        crate::json::tree_natural(flag(on))->0 == 0 <==> !on,
{
}

/// A command is found in its request under its module and its own name, and nothing else is asked.
pub proof fn law_requests_name_their_command(
    module: Seq<char>,
    command: Seq<char>,
    arguments: Tree,
    other: Seq<char>,
)
    ensures
        ({
            let request = envelope(module, command, arguments);
            let part = crate::json::tree_member(request, module);
            &&& part is Some
            &&& crate::json::tree_member(part->0, command) == Some(arguments)
            &&& other != module ==> crate::json::tree_member(request, other) is None
            &&& other != command ==> crate::json::tree_member(part->0, other) is None
        }),
{
    let inner: Seq<(Seq<char>, Tree)> = seq![(command, arguments)];
    let outer: Seq<(Seq<char>, Tree)> = seq![(module, Tree::Object(inner))];
    assert(inner.drop_first().len() == 0);
    assert(outer.drop_first().len() == 0);
    assert(crate::json::member_named(inner.drop_first(), other) is None);
    assert(crate::json::member_named(outer.drop_first(), other) is None);
}

/// Whether a part of an answer reports an error: it has a code that is a whole number other than
/// zero.
pub open spec fn reports_error(part: Tree, code: i64) -> bool {
    &&& code != 0
    &&& crate::json::tree_member(part, "err_code"@) is Some
    &&& crate::json::tree_integer(crate::json::tree_member(part, "err_code"@)->0) == Some(code)
}

/// An error that the module reports, or the command, is the answer, with its code; a part without
/// a code, or with the code zero, reports none. Where neither reports one, the answer is what
/// stands under the command.
pub proof fn law_errors_come_before_results(
    response: Tree,
    module: Seq<char>,
    command: Seq<char>,
    part: Tree,
    result: Tree,
    code: i64,
)
    requires
        crate::json::tree_member(response, module) == Some(part),
    ensures
        reports_error(part, code) ==> (answer(response, module, command) matches Answer::Failed(
            given,
            _,
        ) && given == code),
        (forall|any: i64| !reports_error(part, any)) && crate::json::tree_member(part, command)
            is None ==> answer(response, module, command) is CommandOmitted,
        (forall|any: i64| !reports_error(part, any)) && crate::json::tree_member(part, command)
            == Some(result) && reports_error(result, code) ==> (answer(
            response,
            module,
            command,
        ) matches Answer::Failed(given, _) && given == code),
        (forall|any: i64| !reports_error(part, any)) && crate::json::tree_member(part, command)
            == Some(result) && (forall|any: i64| !reports_error(result, any)) ==> answer(
            response,
            module,
            command,
        ) == Answer::Given(result),
{
    assert(reported_code(part) is Some ==> reports_error(part, reported_code(part)->0));
    assert(reported_code(result) is Some ==> reports_error(result, reported_code(result)->0));
}

/// The text of an error is the one that stands beside its code, where there is one.
pub proof fn law_errors_bring_their_text(part: Tree, code: i64, text: Seq<char>)
    requires
        reports_error(part, code),
    ensures
        crate::json::tree_member(part, "err_msg"@) == Some(Tree::Text(text)) ==> reported_message(
            part,
        ) == Some(text),
        crate::json::tree_member(part, "err_msg"@) is None ==> reported_message(part) is None,
        reported_code(part) == Some(code),
{
}

/// The error of a plug names the module and the command that were asked, with its code and text.
pub proof fn law_protocol_errors_name_the_command(
    error: Error,
    module: Seq<char>,
    command: Seq<char>,
    code: i64,
    message: Option<Seq<char>>,
)
    requires
        protocol_failure(error, module, command, code, message),
    ensures
        error is Protocol,
        error->Protocol_module@ == module,
        error->Protocol_command@ == command,
        error->Protocol_code == code,
        error->Protocol_message is Some <==> message is Some,
        message is Some ==> error->Protocol_message->0@ == message->0,
{
}

} // verus!
