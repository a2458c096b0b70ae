//! Rules that a plug keeps itself: countdowns and schedules.
use crate::automation::{AutomationTrigger, NewAutomation, SolarEvent};
use crate::clock::format_minute;
use crate::json::Member;
use crate::quantity::Quantity;
use crate::text::{decimal_text, join, trim};
use vstd::prelude::*;
use vstd::string::*;

verus! {

/// The rules of one kind that a plug keeps.
#[derive(Debug)]
pub struct RuleSet<T> {
    pub enabled: bool,
    pub version: Option<u8>,
    pub rules: Vec<T>,
}

/// The rules that a plug answers with. Any number but zero switches them on.
pub fn rule_set<T>(enable: u8, version: Option<u8>, rule_list: Vec<T>) -> (set: RuleSet<T>)
    ensures
        set.enabled == (enable != 0),
        set.version == version,
        set.rules == rule_list,
{
    RuleSet { enabled: enable != 0, version, rules: rule_list }
}

/// A countdown after which a plug switches.
#[derive(Debug)]
pub struct CountdownRule {
    pub id: Option<String>,
    pub name: String,
    pub enabled: bool,
    pub delay: u64,
    pub turn_on: bool,
    pub extra: Vec<Member>,
}

/// A schedule by which a plug switches. Weekdays count from Sunday.
#[derive(Debug)]
pub struct ScheduleRule {
    pub id: Option<String>,
    pub name: String,
    pub enabled: bool,
    pub repeat: bool,
    pub weekdays: [bool; 7],
    pub stime_opt: i8,
    pub smin: u16,
    pub sact: i8,
    pub etime_opt: i8,
    pub emin: u16,
    pub eact: i8,
    pub soffset: Option<i16>,
    pub eoffset: Option<i16>,
    pub year: u16,
    pub month: u8,
    pub day: u8,
    pub latitude: Quantity,
    pub longitude: Quantity,
    pub force: u8,
    pub extra: Vec<Member>,
}

/// A rule by which a plug switches at random while nobody is in. Weekdays count from Sunday.
#[derive(Debug)]
pub struct AntiTheftRule {
    pub id: Option<String>,
    pub name: String,
    pub enabled: bool,
    pub repeat: bool,
    pub weekdays: [bool; 7],
    pub stime_opt: i8,
    pub smin: u16,
    pub etime_opt: i8,
    pub emin: u16,
    pub frequency: u16,
    pub duration: u16,
    pub lastfor: u16,
    pub year: u16,
    pub month: u8,
    pub day: u8,
    pub latitude: Quantity,
    pub longitude: Quantity,
    pub force: u8,
    pub extra: Vec<Member>,
}

/// What the schedule of a plug does next.
#[derive(Debug)]
pub struct NextAction {
    pub id: Option<String>,
    pub action: Option<i8>,
    pub scheduled_seconds: Option<u64>,
    pub action_type: i8,
}

/// A wireless network that a plug sees.
#[derive(Debug)]
pub struct AccessPoint {
    pub ssid: String,
    pub key_type: Option<u8>,
    pub cipher_type: Option<u8>,
    pub channel: Option<u8>,
    pub signal_level: Option<i16>,
    pub bssid: Option<String>,
    pub extra: Vec<Member>,
}

/// How a plug stands with its cloud service.
#[derive(Debug)]
pub struct CloudInfo {
    pub bound: Option<bool>,
    pub connected: Option<bool>,
    pub server: Option<String>,
    pub username: Option<String>,
    pub extra: Vec<Member>,
}

/// What a number of the protocol says, where it is given: any but zero says yes.
pub open spec fn says_yes(flag: Option<u8>) -> Option<bool> {
    match flag {
        Some(flag) => Some(flag != 0),
        None => None,
    }
}

fn optional_flag(flag: Option<u8>) -> (value: Option<bool>)
    ensures
        value == says_yes(flag),
{
    match flag {
        Some(flag) => Some(flag != 0),
        None => None,
    }
}

/// How a plug stands with its cloud service, out of the members of its answer.
pub fn cloud_info(
    binded: Option<u8>,
    cld_connection: Option<u8>,
    server: Option<String>,
    username: Option<String>,
    extra: Vec<Member>,
) -> (info: CloudInfo)
    ensures
        info.bound == says_yes(binded),
        info.connected == says_yes(cld_connection),
        info.server == server,
        info.username == username,
        info.extra == extra,
{
    CloudInfo {
        bound: optional_flag(binded),
        connected: optional_flag(cld_connection),
        server,
        username,
        extra,
    }
}

/// The numbers that stand for the days of a week.
pub fn weekday_flags(weekdays: [bool; 7]) -> (flags: [u8; 7])
    ensures
        forall|i: int|
            0 <= i < 7 ==> #[trigger] flags[i] == (if weekdays[i] {
                1u8
            } else {
                0u8
            }),
{
    let mut flags: [u8; 7] = [0, 0, 0, 0, 0, 0, 0];
    let mut index: usize = 0;
    while index < 7
        invariant
            index <= 7,
            forall|i: int|
                0 <= i < index ==> #[trigger] flags[i] == (if weekdays[i] {
                    1u8
                } else {
                    0u8
                }),
        decreases 7 - index,
    {
        flags[index] = if weekdays[index] {
            1
        } else {
            0
        };
        index = index + 1;
    }
    flags
}

/// The days of a week that numbers stand for. There must be seven; any but zero selects a day.
pub fn weekdays_of(flags: &Vec<u8>) -> (weekdays: Option<[bool; 7]>)
    ensures
        match weekdays {
            Some(weekdays) => flags@.len() == 7 && forall|i: int|
                0 <= i < 7 ==> #[trigger] weekdays[i] == (flags@[i] != 0),
            None => flags@.len() != 7,
        },
{
    if flags.len() != 7 {
        return None;
    }
    let mut weekdays: [bool; 7] = [false, false, false, false, false, false, false];
    let mut index: usize = 0;
    while index < 7
        invariant
            index <= 7,
            flags@.len() == 7,
            forall|i: int| 0 <= i < index ==> #[trigger] weekdays[i] == (flags@[i] != 0),
        decreases 7 - index,
    {
        weekdays[index] = flags[index] != 0;
        index = index + 1;
    }
    Some(weekdays)
}

/// A countdown as a page shows it.
#[derive(Debug)]
pub struct CountdownView {
    pub id: String,
    pub name: String,
    pub enabled: bool,
    pub delay: String,
    pub action: &'static str,
}

/// A delay in words.
pub open spec fn delay_text(delay: int) -> Seq<char> {
    let minutes = crate::text::decimal((delay / 60) as nat) + " min"@;
    if delay % 60 == 0 {
        minutes
    } else {
        minutes + " "@ + crate::text::decimal((delay % 60) as nat) + " sec"@
    }
}

/// What a rule does, in words.
pub open spec fn action_name(turn_on: bool) -> Seq<char> {
    if turn_on {
        "Turn on"@
    } else {
        "Turn off"@
    }
}

/// A countdown as a page shows it.
pub fn countdown_view(rule: CountdownRule) -> (view: CountdownView)
    ensures
        view.id@ == (match rule.id {
            Some(id) => id@,
            None => seq![],
        }),
        view.name == rule.name,
        view.enabled == rule.enabled,
        view.delay@ == delay_text(rule.delay as int),
        view.action@ == action_name(rule.turn_on),
{
    let mut delay = decimal_text(rule.delay / 60);
    delay.append(" min");
    if rule.delay % 60 != 0 {
        delay.append(" ");
        delay.append(decimal_text(rule.delay % 60).as_str());
        delay.append(" sec");
    }
    let id = match rule.id {
        Some(id) => id,
        None => {
            let empty = String::new();
            proof {
                assert(empty@ =~= seq![]);
            }
            empty
        },
    };
    CountdownView {
        id,
        name: rule.name,
        enabled: rule.enabled,
        delay,
        action: if rule.turn_on {
            "Turn on"
        } else {
            "Turn off"
        },
    }
}

/// The name of a day of the week, Sunday first.
pub open spec fn weekday_short_name(index: int) -> Seq<char> {
    if index == 0 {
        "Sun"@
    } else if index == 1 {
        "Mon"@
    } else if index == 2 {
        "Tue"@
    } else if index == 3 {
        "Wed"@
    } else if index == 4 {
        "Thu"@
    } else if index == 5 {
        "Fri"@
    } else {
        "Sat"@
    }
}

fn weekday_short_text(index: usize) -> (name: &'static str)
    ensures
        name@ == weekday_short_name(index as int),
{
    if index == 0 {
        "Sun"
    } else if index == 1 {
        "Mon"
    } else if index == 2 {
        "Tue"
    } else if index == 3 {
        "Wed"
    } else if index == 4 {
        "Thu"
    } else if index == 5 {
        "Fri"
    } else {
        "Sat"
    }
}

/// The names of the selected days among the first `count` of a week.
pub open spec fn selected_days(weekdays: [bool; 7], count: int) -> Seq<Seq<char>>
    decreases count,
{
    if count <= 0 {
        seq![]
    } else if weekdays[count - 1] {
        selected_days(weekdays, count - 1).push(weekday_short_name(count - 1))
    } else {
        selected_days(weekdays, count - 1)
    }
}

/// Whether every day of a week is selected.
pub open spec fn every_day(weekdays: [bool; 7]) -> bool {
    forall|i: int| 0 <= i < 7 ==> #[trigger] weekdays[i]
}

/// Whether the days from Monday to Friday are selected and no others.
pub open spec fn working_days(weekdays: [bool; 7]) -> bool {
    forall|i: int| 0 <= i < 7 ==> #[trigger] weekdays[i] == (1 <= i <= 5)
}

/// The selected days of a week in words.
pub open spec fn weekdays_text(weekdays: [bool; 7]) -> Seq<char> {
    if every_day(weekdays) {
        "Every day"@
    } else if working_days(weekdays) {
        "Weekdays"@
    } else if selected_days(weekdays, 7).len() == 0 {
        "No weekdays"@
    } else {
        crate::text::joined(selected_days(weekdays, 7), ", "@)
    }
}

/// Spells the selected days of a week.
pub fn weekday_summary(weekdays: [bool; 7]) -> (text: String)
    ensures
        text@ == weekdays_text(weekdays),
{
    let mut names: Vec<String> = Vec::new();
    let mut every = true;
    let mut working = true;
    let mut index: usize = 0;
    proof {
        assert(crate::text::texts(names@) =~= seq![]);
    }
    while index < 7
        invariant
            index <= 7,
            crate::text::texts(names@) == selected_days(weekdays, index as int),
            every == forall|i: int| 0 <= i < index ==> #[trigger] weekdays[i],
            working == forall|i: int| 0 <= i < index ==> #[trigger] weekdays[i] == (1 <= i <= 5),
        decreases 7 - index,
    {
        if weekdays[index] {
            let ghost before = names@;
            let name = weekday_short_text(index).to_owned();
            names.push(name);
            proof {
                assert(crate::text::texts(names@) =~= crate::text::texts(before).push(name@));
            }
        } else {
            every = false;
        }
        if weekdays[index] != (1 <= index && index <= 5) {
            working = false;
        }
        index = index + 1;
    }
    proof {
        assert(crate::text::texts(names@).len() == names@.len());
    }
    if every {
        "Every day".to_owned()
    } else if working {
        "Weekdays".to_owned()
    } else if names.len() == 0 {
        "No weekdays".to_owned()
    } else {
        join(&names, ", ")
    }
}

/// The time of a solar rule in words.
pub open spec fn solar_timing(event: Seq<char>, offset_minutes: int) -> Seq<char> {
    if offset_minutes < 0 {
        crate::text::decimal((-offset_minutes) as nat) + " min before "@ + event
    } else if offset_minutes == 0 {
        event
    } else {
        crate::text::decimal(offset_minutes as nat) + " min after "@ + event
    }
}

/// Spells the time of a solar rule.
pub fn solar_schedule_time(event: &str, offset_minutes: i16) -> (text: String)
    ensures
        text@ == solar_timing(event@, offset_minutes as int),
{
    if offset_minutes < 0 {
        let mut text = decimal_text((-(offset_minutes as i32)) as u64);
        text.append(" min before ");
        text.append(event);
        text
    } else if offset_minutes == 0 {
        event.to_owned()
    } else {
        let mut text = decimal_text(offset_minutes as u64);
        text.append(" min after ");
        text.append(event);
        text
    }
}

/// Whether a rule has an identity that is not empty.
pub open spec fn has_identity(rule: ScheduleRule) -> bool {
    rule.id is Some && rule.id->0@.len() > 0
}

/// Whether a schedule does no more than a repeated switch at a fixed time of the day.
pub open spec fn plain_fixed(rule: ScheduleRule) -> bool {
    has_identity(rule) && rule.repeat && rule.stime_opt == 0 && rule.smin < 1_440 && (rule.sact == 0
        || rule.sact == 1) && rule.etime_opt == -1
}

/// Whether a schedule does no more than a repeated switch by the sun.
pub open spec fn plain_solar(rule: ScheduleRule) -> bool {
    has_identity(rule) && rule.repeat && (rule.stime_opt == 1 || rule.stime_opt == 2) && (rule.sact
        == 0 || rule.sact == 1) && rule.etime_opt == -1
}

fn identified(rule: &ScheduleRule) -> (result: bool)
    ensures
        result == has_identity(*rule),
{
    match &rule.id {
        Some(id) => id.as_str().unicode_len() > 0,
        None => false,
    }
}

/// Whether a schedule does no more than a repeated switch at a fixed time of the day.
pub fn is_editable_schedule(rule: &ScheduleRule) -> (result: bool)
    ensures
        result == plain_fixed(*rule),
{
    identified(rule) && rule.repeat && rule.stime_opt == 0 && rule.smin < 1_440 && (rule.sact == 0
        || rule.sact == 1) && rule.etime_opt == -1
}

/// Whether a schedule does no more than a repeated switch by the sun.
pub fn is_editable_solar_schedule(rule: &ScheduleRule) -> (result: bool)
    ensures
        result == plain_solar(*rule),
{
    identified(rule) && rule.repeat && (rule.stime_opt == 1 || rule.stime_opt == 2) && (rule.sact
        == 0 || rule.sact == 1) && rule.etime_opt == -1
}

/// A schedule of a plug as a page shows it.
#[derive(Debug)]
pub struct ScheduleView {
    pub name: String,
    pub enabled: bool,
    pub migratable: bool,
    pub time: String,
    pub action: &'static str,
    pub weekday_summary: String,
}

/// The offset of a solar schedule.
pub open spec fn solar_offset(rule: ScheduleRule) -> int {
    match rule.soffset {
        Some(offset) => offset as int,
        None => 0,
    }
}

/// The time of a schedule in words.
pub open spec fn schedule_time(rule: ScheduleRule) -> Seq<char> {
    if rule.stime_opt == 0 && rule.smin < 1_440 {
        crate::clock::minute_clock(rule.smin as nat)
    } else if rule.stime_opt == 1 {
        solar_timing("sunrise"@, solar_offset(rule))
    } else if rule.stime_opt == 2 {
        solar_timing("sunset"@, solar_offset(rule))
    } else {
        "Solar/advanced"@
    }
}

/// What a schedule does, in words.
pub open spec fn schedule_action(rule: ScheduleRule) -> Seq<char> {
    if rule.sact == 1 {
        "Turn on"@
    } else if rule.sact == 0 {
        "Turn off"@
    } else {
        "Advanced action"@
    }
}

/// Whether a view shows a schedule.
pub open spec fn shows_schedule(view: ScheduleView, rule: ScheduleRule) -> bool {
    &&& view.name == rule.name
    &&& view.enabled == rule.enabled
    &&& view.migratable == (plain_fixed(rule) || plain_solar(rule))
    &&& view.time@ == schedule_time(rule)
    &&& view.action@ == schedule_action(rule)
    &&& view.weekday_summary@ == weekdays_text(rule.weekdays)
}

/// A schedule of a plug as a page shows it.
pub fn schedule_view(rule: ScheduleRule) -> (view: ScheduleView)
    ensures
        shows_schedule(view, rule),
{
    let migratable = is_editable_schedule(&rule) || is_editable_solar_schedule(&rule);
    let offset: i16 = match rule.soffset {
        Some(offset) => offset,
        None => 0,
    };
    let time = if rule.stime_opt == 0 && rule.smin < 1_440 {
        format_minute(rule.smin)
    } else if rule.stime_opt == 1 {
        solar_schedule_time("sunrise", offset)
    } else if rule.stime_opt == 2 {
        solar_schedule_time("sunset", offset)
    } else {
        "Solar/advanced".to_owned()
    };
    ScheduleView {
        name: rule.name,
        enabled: rule.enabled,
        migratable,
        time,
        action: if rule.sact == 1 {
            "Turn on"
        } else if rule.sact == 0 {
            "Turn off"
        } else {
            "Advanced action"
        },
        weekday_summary: weekday_summary(rule.weekdays),
    }
}

/// The schedules of a plug as a page shows them.
#[derive(Debug)]
pub struct SchedulePanel {
    pub migratable_count: usize,
    pub unsupported_count: usize,
    pub rules: Vec<ScheduleView>,
}

/// The number of the first `count` schedules that the library can take over.
pub open spec fn migratable_count(rules: Seq<ScheduleRule>, count: int) -> int
    decreases count,
{
    if count <= 0 {
        0
    } else {
        migratable_count(rules, count - 1) + (if plain_fixed(rules[count - 1]) || plain_solar(
            rules[count - 1],
        ) {
            1int
        } else {
            0
        })
    }
}

/// The schedules of a plug as a page shows them, with how many of them the library can take
/// over and how many it cannot.
pub fn schedule_panel(rules: Vec<ScheduleRule>) -> (panel: SchedulePanel)
    ensures
        panel.rules@.len() == rules@.len(),
        forall|i: int|
            0 <= i < rules@.len() ==> shows_schedule(#[trigger] panel.rules@[i], rules@[i]),
        panel.migratable_count == migratable_count(rules@, rules@.len() as int),
        panel.migratable_count + panel.unsupported_count == rules@.len(),
{
    let total: usize = rules.len();
    let mut left = rules;
    let ghost all = left@;
    let mut views: Vec<ScheduleView> = Vec::new();
    let mut migratable: usize = 0;
    while left.len() > 0
        invariant
            all == rules@,
            views@.len() + left@.len() == all.len(),
            left@ == all.skip(views@.len() as int),
            forall|i: int|
                0 <= i < views@.len() ==> shows_schedule(#[trigger] views@[i], all[i]),
            migratable == migratable_count(all, views@.len() as int),
            migratable <= views@.len(),
            all.len() == total,
        decreases left@.len(),
    {
        let rule = left.remove(0);
        proof {
            assert(rule == all[views@.len() as int]);
        }
        let view = schedule_view(rule);
        if view.migratable {
            migratable = migratable + 1;
        }
        views.push(view);
    }
    SchedulePanel {
        migratable_count: migratable,
        unsupported_count: views.len() - migratable,
        rules: views,
    }
}

/// Whether a rule of the library does what a schedule of a plug does.
pub open spec fn takes_over(
    automation: NewAutomation,
    rule: ScheduleRule,
    schedules_enabled: bool,
    device_id: Seq<char>,
) -> bool {
    &&& automation.device_id@ == device_id
    &&& automation.name@ == (if crate::text::trimmed(rule.name@).len() == 0 {
        "Migrated schedule"@
    } else {
        rule.name@
    })
    &&& automation.enabled == (schedules_enabled && rule.enabled)
    &&& automation.turn_on == (rule.sact == 1)
    &&& automation.trigger == (if plain_fixed(rule) {
        AutomationTrigger::FixedTime { minute_of_day: rule.smin, weekdays: rule.weekdays }
    } else {
        AutomationTrigger::Solar {
            event: if rule.stime_opt == 1 {
                SolarEvent::Sunrise
            } else {
                SolarEvent::Sunset
            },
            offset_minutes: solar_offset(rule) as i16,
            weekdays: rule.weekdays,
        }
    })
}

/// The rule that takes over a schedule of a plug, where that is plain enough.
pub fn migrated_automation(rule: &ScheduleRule, schedules_enabled: bool, device_id: &str) -> (
    automation: Option<NewAutomation>)
    ensures
        match automation {
            Some(automation) => (plain_fixed(*rule) || plain_solar(*rule)) && takes_over(
                automation,
                *rule,
                schedules_enabled,
                device_id@,
            ),
            None => !plain_fixed(*rule) && !plain_solar(*rule),
        },
{
    let trigger = if is_editable_schedule(rule) {
        AutomationTrigger::FixedTime { minute_of_day: rule.smin, weekdays: rule.weekdays }
    } else if is_editable_solar_schedule(rule) {
        AutomationTrigger::Solar {
            event: if rule.stime_opt == 1 {
                SolarEvent::Sunrise
            } else {
                SolarEvent::Sunset
            },
            offset_minutes: match rule.soffset {
                Some(offset) => offset,
                None => 0,
            },
            weekdays: rule.weekdays,
        }
    } else {
        return None;
    };
    let name = if trim(rule.name.as_str()).unicode_len() == 0 {
        "Migrated schedule".to_owned()
    } else {
        rule.name.clone()
    };
    Some(
        NewAutomation {
            device_id: device_id.to_owned(),
            name,
            enabled: schedules_enabled && rule.enabled,
            trigger,
            turn_on: rule.sact == 1,
        },
    )
}

/// A name where it is chosen, and nothing else.
pub open spec fn named_if(chosen: bool, name: Seq<char>) -> Seq<Seq<char>> {
    if chosen {
        seq![name]
    } else {
        seq![]
    }
}

/// The days of a week are named from Sunday to Saturday, those that are selected and no others.
/// All seven are called every day, those from Monday to Friday weekdays, and none of them no
/// weekdays.
pub proof fn law_weekdays_are_named(weekdays: [bool; 7])
    ensures
        ({
            let names = named_if(weekdays[0], "Sun"@) + named_if(weekdays[1], "Mon"@) + named_if(
                weekdays[2],
                "Tue"@,
            ) + named_if(weekdays[3], "Wed"@) + named_if(weekdays[4], "Thu"@) + named_if(
                weekdays[5],
                "Fri"@,
            ) + named_if(weekdays[6], "Sat"@);
            let all = weekdays[0] && weekdays[1] && weekdays[2] && weekdays[3] && weekdays[4]
                && weekdays[5] && weekdays[6];
            let working = !weekdays[0] && weekdays[1] && weekdays[2] && weekdays[3] && weekdays[4]
                && weekdays[5] && !weekdays[6];
            weekdays_text(weekdays) == (if all {
                "Every day"@
            } else if working {
                "Weekdays"@
            } else if names.len() == 0 {
                "No weekdays"@
            } else {
                crate::text::joined(names, ", "@)
            })
        }),
{
    reveal_with_fuel(selected_days, 8);
    let names = named_if(weekdays[0], "Sun"@) + named_if(weekdays[1], "Mon"@) + named_if(
        weekdays[2],
        "Tue"@,
    ) + named_if(weekdays[3], "Wed"@) + named_if(weekdays[4], "Thu"@) + named_if(
        weekdays[5],
        "Fri"@,
    ) + named_if(weekdays[6], "Sat"@);
    assert(selected_days(weekdays, 1) =~= named_if(weekdays[0], "Sun"@));
    assert(selected_days(weekdays, 2) =~= selected_days(weekdays, 1) + named_if(
        weekdays[1],
        "Mon"@,
    ));
    assert(selected_days(weekdays, 3) =~= selected_days(weekdays, 2) + named_if(
        weekdays[2],
        "Tue"@,
    ));
    assert(selected_days(weekdays, 4) =~= selected_days(weekdays, 3) + named_if(
        weekdays[3],
        "Wed"@,
    ));
    assert(selected_days(weekdays, 5) =~= selected_days(weekdays, 4) + named_if(
        weekdays[4],
        "Thu"@,
    ));
    assert(selected_days(weekdays, 6) =~= selected_days(weekdays, 5) + named_if(
        weekdays[5],
        "Fri"@,
    ));
    assert(selected_days(weekdays, 7) =~= selected_days(weekdays, 6) + named_if(
        weekdays[6],
        "Sat"@,
    ));
    assert(selected_days(weekdays, 7) =~= names);
    if every_day(weekdays) {
        assert(weekdays[0] && weekdays[1] && weekdays[2] && weekdays[3] && weekdays[4]
            && weekdays[5] && weekdays[6]);
    }
    if working_days(weekdays) {
        assert(!weekdays[0] && weekdays[1] && weekdays[2] && weekdays[3] && weekdays[4]
            && weekdays[5] && !weekdays[6]);
    }
}

/// A delay is shown in minutes, and in the seconds that are left over where there are any.
pub proof fn law_delays_are_shown(minutes: nat, seconds: nat)
    requires
        0 < seconds < 60,
    ensures
        delay_text(60 * minutes as int) == crate::text::decimal(minutes) + " min"@,
        delay_text((60 * minutes + seconds) as int) == crate::text::decimal(minutes) + " min"@ + " "@
            + crate::text::decimal(seconds) + " sec"@,
{
    assert((60 * minutes) / 60 == minutes && (60 * minutes) % 60 == 0);
    assert((60 * minutes + seconds) / 60 == minutes && (60 * minutes + seconds) % 60 == seconds);
}

/// A time by the sun is shown as so many minutes before it where its offset is negative, as so
/// many after it where that is positive, and by its name alone where there is none.
pub proof fn law_sun_times_are_shown(event: Seq<char>, minutes: nat)
    requires
        minutes > 0,
    ensures
        solar_timing(event, 0) == event,
        solar_timing(event, minutes as int) == crate::text::decimal(minutes) + " min after "@
            + event,
        solar_timing(event, -(minutes as int)) == crate::text::decimal(minutes) + " min before "@
            + event,
{
}

/// Schedules are counted as movable or as not, and each is movable where it has an identity, is
/// repeated, ends by no clock, switches on or off, and goes by a minute of the day or by the sun.
pub proof fn law_movable_schedules_are_counted(rules: Seq<ScheduleRule>, count: int)
    requires
        0 <= count <= rules.len(),
    ensures
        0 <= migratable_count(rules, count) <= count,
        count > 0 ==> ({
            let rule = rules[count - 1];
            let movable = rule.id is Some && rule.id->0@.len() > 0 && rule.repeat && rule.etime_opt
                == -1 && (rule.sact == 0 || rule.sact == 1) && ((rule.stime_opt == 0 && rule.smin
                < 1_440) || rule.stime_opt == 1 || rule.stime_opt == 2);
            migratable_count(rules, count) == migratable_count(rules, count - 1) + (if movable {
                1int
            } else {
                0
            })
        }),
    decreases count,
{
    if count > 0 {
        law_movable_schedules_are_counted(rules, count - 1);
    }
}

/// The time of a schedule is shown by the clock, or by the sunrise or the sunset that its kind
/// stands for, with its offset.
pub proof fn law_schedule_times_are_shown(rule: ScheduleRule)
    ensures
        rule.stime_opt == 0 && rule.smin < 1_440 ==> schedule_time(rule)
            == crate::clock::minute_clock(rule.smin as nat),
        rule.stime_opt == 1 && rule.soffset is Some ==> schedule_time(rule) == solar_timing(
            "sunrise"@,
            rule.soffset->0 as int,
        ),
        rule.stime_opt == 1 && rule.soffset is None ==> schedule_time(rule) == "sunrise"@,
        rule.stime_opt == 2 && rule.soffset is Some ==> schedule_time(rule) == solar_timing(
            "sunset"@,
            rule.soffset->0 as int,
        ),
        rule.stime_opt == 2 && rule.soffset is None ==> schedule_time(rule) == "sunset"@,
{
}

/// A schedule is shown as turning on where its action number is one, as turning off where it is
/// zero, and as something else where it is neither. One that goes by neither clock nor sun is shown
/// as advanced.
pub proof fn law_schedule_actions_are_shown(rule: ScheduleRule)
    ensures
        rule.sact == 1 ==> schedule_action(rule) == "Turn on"@,
        rule.sact == 0 ==> schedule_action(rule) == "Turn off"@,
        rule.sact != 0 && rule.sact != 1 ==> schedule_action(rule) == "Advanced action"@,
        rule.stime_opt != 0 && rule.stime_opt != 1 && rule.stime_opt != 2 ==> schedule_time(rule)
            == "Solar/advanced"@,
        rule.stime_opt == 0 && rule.smin >= 1_440 ==> schedule_time(rule) == "Solar/advanced"@,
{
}

/// A countdown is shown by what it does, and a number of the protocol says yes where it is any but
/// zero.
pub proof fn law_numbers_say_yes(turn_on: bool, flag: u8)
    ensures
        turn_on ==> action_name(turn_on) == "Turn on"@,
        !turn_on ==> action_name(turn_on) == "Turn off"@,
        says_yes(None) is None,
        says_yes(Some(flag)) == Some(flag > 0),
{
}

} // verus!
