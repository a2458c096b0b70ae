//! What goes into the database: identities and times as it holds them, and the contents of the
//! files that it takes over when it is new.
use crate::automation::{AutomationRule, AutomationTrigger};
use crate::forms::contains_text;
use crate::group::DeviceGroup;
use std::time::{Duration, SystemTime, SystemTimeError};
use vstd::prelude::*;
use vstd::string::*;

verus! {

/// A moment on the clock of the machine.
#[verifier::external_type_specification]
#[verifier::external_body]
pub struct ExSystemTime(SystemTime);

/// The error that a moment comes before another.
#[verifier::external_type_specification]
#[verifier::external_body]
pub struct ExSystemTimeError(SystemTimeError);

/// Reads the clock of the machine (`SystemTime::now`). Nothing is claimed of what it shows.
#[verifier::external_body]
fn system_time() -> (time: SystemTime) {
    SystemTime::now()
}

/// The nanoseconds from the start of 1970 to a moment, as `SystemTime::duration_since` counts
/// them: less than zero where the moment comes first.
pub uninterp spec fn epoch_nanoseconds(time: SystemTime) -> int;

/// The time from the start of 1970 to a moment (`SystemTime::duration_since`). It fails exactly
/// where the moment comes first, and depends on the moment alone.
#[verifier::external_body]
fn since_epoch(time: SystemTime) -> (duration: Result<Duration, SystemTimeError>)
    ensures
        match duration {
            Ok(duration) => epoch_nanoseconds(time) >= 0 && crate::client::nanoseconds(duration)
                == epoch_nanoseconds(time),
            Err(_) => epoch_nanoseconds(time) < 0,
        },
{
    time.duration_since(std::time::UNIX_EPOCH)
}

/// Why the clock gives no time that the database can hold.
#[derive(Debug, Clone, Copy, PartialEq, Eq, Structural)]
pub enum ClockError {
    BeforeEpoch,
    OutOfRange,
}

/// A count of seconds as the database holds it.
pub fn timestamp(seconds: u64) -> (result: Result<i64, ClockError>)
    ensures
        result == (if seconds <= i64::MAX {
            Ok::<i64, ClockError>(seconds as i64)
        } else {
            Err(ClockError::OutOfRange)
        }),
{
    if seconds <= i64::MAX as u64 {
        Ok(seconds as i64)
    } else {
        Err(ClockError::OutOfRange)
    }
}

/// A moment as the database holds it, in whole seconds since the start of 1970: a moment before
/// that is refused, and so is one that sixty-four bits do not count.
pub open spec fn moment_held(nanoseconds: int) -> Result<i64, ClockError> {
    if nanoseconds < 0 {
        Err(ClockError::BeforeEpoch)
    } else if nanoseconds / 1_000_000_000 <= i64::MAX {
        Ok((nanoseconds / 1_000_000_000) as i64)
    } else {
        Err(ClockError::OutOfRange)
    }
}

/// A moment as the database holds it.
pub fn timestamp_at(time: SystemTime) -> (result: Result<i64, ClockError>)
    ensures
        result == moment_held(epoch_nanoseconds(time)),
{
    match since_epoch(time) {
        Ok(duration) => timestamp(duration.as_secs()),
        Err(_) => Err(ClockError::BeforeEpoch),
    }
}

/// The seconds since the start of 1970: those of a moment that the clock shows, whichever it is.
pub fn unix_timestamp() -> (result: Result<i64, ClockError>)
    ensures
        exists|time: SystemTime| result == moment_held(#[trigger] epoch_nanoseconds(time)),
{
    timestamp_at(system_time())
}

/// How long weather observations are kept, in seconds.
pub const WEATHER_HISTORY_RETENTION: i64 = 7_776_000;

/// The time before which weather observations are no longer kept, where it can be counted.
pub fn history_cutoff(now: i64) -> (cutoff: Option<i64>)
    ensures
        cutoff == (if now - WEATHER_HISTORY_RETENTION >= i64::MIN {
            Some((now - WEATHER_HISTORY_RETENTION) as i64)
        } else {
            None
        }),
{
    now.checked_sub(WEATHER_HISTORY_RETENTION)
}

/// An identity as the database holds it, where it fits.
pub open spec fn row_id(id: u64) -> Option<i64> {
    if id <= i64::MAX {
        Some(id as i64)
    } else {
        None
    }
}

/// An identity as the database holds it, where it fits.
pub fn stored_id(id: u64) -> (stored: Option<i64>)
    ensures
        stored == row_id(id),
{
    if id <= i64::MAX as u64 {
        Some(id as i64)
    } else {
        None
    }
}

/// The columns that a table of rules lacks.
#[derive(Debug, Clone, Copy, PartialEq, Eq, Structural)]
pub struct MissingColumns {
    pub name: bool,
    pub enabled: bool,
}

/// The columns that a table of rules lacks and has to gain.
pub fn missing_columns(columns: &Vec<String>) -> (missing: MissingColumns)
    ensures
        missing.name == !crate::text::texts(columns@).contains("name"@),
        missing.enabled == !crate::text::texts(columns@).contains("enabled"@),
{
    MissingColumns {
        name: !contains_text(columns, "name"),
        enabled: !contains_text(columns, "enabled"),
    }
}

/// Whether a table of devices lacks the column for brightness and has to gain it.
pub fn lacks_brightness(columns: &Vec<String>) -> (lacks: bool)
    ensures
        lacks == !crate::text::texts(columns@).contains("brightness"@),
{
    !contains_text(columns, "brightness")
}

/// Why a file cannot be taken over.
#[derive(Debug, Clone, Copy, PartialEq, Eq, Structural)]
pub enum ImportError {
    IdOutOfRange,
}

/// The rules in a file.
#[derive(Debug)]
pub struct RuleFile {
    pub next_id: u64,
    pub rules: Vec<AutomationRule>,
}

/// The groups in a file.
#[derive(Debug)]
pub struct GroupFile {
    pub next_id: u64,
    pub groups: Vec<DeviceGroup>,
}

/// A rule out of a file. Its name and whether it is enabled are left to the database.
#[derive(Debug)]
pub struct RuleRow {
    pub id: i64,
    pub device_id: String,
    pub trigger: AutomationTrigger,
    pub turn_on: bool,
    pub last_solar_day: Option<i64>,
}

/// A group out of a file.
#[derive(Debug)]
pub struct GroupRow {
    pub id: i64,
    pub name: String,
    pub device_ids: Vec<String>,
}

/// What a table takes over: its rows, and the last identity that was given out.
#[derive(Debug)]
pub struct Takeover<T> {
    pub rows: Vec<T>,
    pub sequence: i64,
}

/// Whether a row holds a rule.
pub open spec fn holds_rule(row: RuleRow, rule: AutomationRule) -> bool {
    &&& row_id(rule.id) == Some(row.id)
    &&& row.device_id == rule.device_id
    &&& row.trigger == rule.trigger
    &&& row.turn_on == rule.turn_on
    &&& row.last_solar_day == rule.last_solar_day
}

/// Whether a row holds a group.
pub open spec fn holds_group(row: GroupRow, group: DeviceGroup) -> bool {
    &&& row_id(group.id) == Some(row.id)
    &&& row.name == group.name
    &&& row.device_ids == group.device_ids
}

/// Whether every identity in a file of rules fits in the database.
pub open spec fn rules_fit(file: RuleFile) -> bool {
    &&& row_id(file.next_id) is Some
    &&& forall|i: int| 0 <= i < file.rules@.len() ==> row_id((#[trigger] file.rules@[i]).id) is Some
}

/// Whether every identity in a file of groups fits in the database.
pub open spec fn groups_fit(file: GroupFile) -> bool {
    &&& row_id(file.next_id) is Some
    &&& forall|i: int|
        0 <= i < file.groups@.len() ==> row_id((#[trigger] file.groups@[i]).id) is Some
}

/// What a table of rules takes over from a file: nothing where it has rows or there is no
/// file, else all of its rules.
pub fn take_over_rules(existing: i64, file: Option<RuleFile>) -> (result: Result<
    Option<Takeover<RuleRow>>,
    ImportError,
>)
    ensures
        match file {
            Some(file) if existing == 0 => if rules_fit(file) {
                &&& result is Ok && result->Ok_0 is Some
                &&& row_id(file.next_id) == Some(result->Ok_0->0.sequence)
                &&& result->Ok_0->0.rows@.len() == file.rules@.len()
                &&& forall|i: int|
                    0 <= i < file.rules@.len() ==> holds_rule(
                        #[trigger] result->Ok_0->0.rows@[i],
                        file.rules@[i],
                    )
            } else {
                result == Err::<Option<Takeover<RuleRow>>, ImportError>(ImportError::IdOutOfRange)
            },
            _ => result is Ok && result->Ok_0 is None,
        },
{
    if existing != 0 {
        return Ok(None);
    }
    let contents = match file {
        Some(contents) => contents,
        None => return Ok(None),
    };
    let ghost all = contents.rules@;
    let next_id: u64 = contents.next_id;
    let mut left = contents.rules;
    let mut rows: Vec<RuleRow> = Vec::new();
    while left.len() > 0
        invariant
            existing == 0,
            file is Some,
            all == file->0.rules@,
            next_id == file->0.next_id,
            rows@.len() + left@.len() == all.len(),
            left@ == all.skip(rows@.len() as int),
            forall|i: int|
                #![trigger all[i]]
                0 <= i < rows@.len() ==> holds_rule(rows@[i], all[i]),
        decreases left@.len(),
    {
        let rule = left.remove(0);
        proof {
            assert(rule == all[rows@.len() as int]);
        }
        match stored_id(rule.id) {
            Some(id) => rows.push(
                RuleRow {
                    id,
                    device_id: rule.device_id,
                    trigger: rule.trigger,
                    turn_on: rule.turn_on,
                    last_solar_day: rule.last_solar_day,
                },
            ),
            None => return Err(ImportError::IdOutOfRange),
        }
    }
    match stored_id(next_id) {
        Some(sequence) => Ok(Some(Takeover { rows, sequence })),
        None => Err(ImportError::IdOutOfRange),
    }
}

/// What a table of groups takes over from a file: nothing where it has rows or there is no
/// file, else all of its groups.
pub fn take_over_groups(existing: i64, file: Option<GroupFile>) -> (result: Result<
    Option<Takeover<GroupRow>>,
    ImportError,
>)
    ensures
        match file {
            Some(file) if existing == 0 => if groups_fit(file) {
                &&& result is Ok && result->Ok_0 is Some
                &&& row_id(file.next_id) == Some(result->Ok_0->0.sequence)
                &&& result->Ok_0->0.rows@.len() == file.groups@.len()
                &&& forall|i: int|
                    0 <= i < file.groups@.len() ==> holds_group(
                        #[trigger] result->Ok_0->0.rows@[i],
                        file.groups@[i],
                    )
            } else {
                result == Err::<Option<Takeover<GroupRow>>, ImportError>(ImportError::IdOutOfRange)
            },
            _ => result is Ok && result->Ok_0 is None,
        },
{
    if existing != 0 {
        return Ok(None);
    }
    let contents = match file {
        Some(contents) => contents,
        None => return Ok(None),
    };
    let ghost all = contents.groups@;
    let next_id: u64 = contents.next_id;
    let mut left = contents.groups;
    let mut rows: Vec<GroupRow> = Vec::new();
    while left.len() > 0
        invariant
            existing == 0,
            file is Some,
            all == file->0.groups@,
            next_id == file->0.next_id,
            rows@.len() + left@.len() == all.len(),
            left@ == all.skip(rows@.len() as int),
            forall|i: int|
                #![trigger all[i]]
                0 <= i < rows@.len() ==> holds_group(rows@[i], all[i]),
        decreases left@.len(),
    {
        let group = left.remove(0);
        proof {
            assert(group == all[rows@.len() as int]);
        }
        match stored_id(group.id) {
            Some(id) => rows.push(
                GroupRow { id, name: group.name, device_ids: group.device_ids },
            ),
            None => return Err(ImportError::IdOutOfRange),
        }
    }
    match stored_id(next_id) {
        Some(sequence) => Ok(Some(Takeover { rows, sequence })),
        None => Err(ImportError::IdOutOfRange),
    }
}

/// A moment is held as the whole seconds since the start of 1970, its fraction left out. One
/// before that is refused as such, and one too far behind it as out of range.
pub proof fn law_moments_are_held_in_seconds(nanoseconds: int, second: i64)
    ensures
        moment_held(nanoseconds) == Ok::<i64, ClockError>(second) <==> second >= 0 && second
            * 1_000_000_000 <= nanoseconds < (second + 1) * 1_000_000_000,
        moment_held(nanoseconds) == Err::<i64, ClockError>(ClockError::BeforeEpoch)
            <==> nanoseconds < 0,
        moment_held(nanoseconds) == Err::<i64, ClockError>(ClockError::OutOfRange) <==> nanoseconds
            >= 9_223_372_036_854_775_808 * 1_000_000_000,
{
}

/// Identities keep their order and their difference in the database, and one is refused exactly
/// where sixty-three bits do not hold it.
pub proof fn law_identities_are_held(id: u64, other: u64)
    ensures
        row_id(id) is Some <==> id < 9_223_372_036_854_775_808,
        row_id(id) is Some ==> row_id(id)->0 == id,
        row_id(id) is Some && row_id(other) is Some ==> (row_id(id)->0 < row_id(other)->0 <==> id
            < other),
{
}

/// A rule that is taken over from a file keeps its identity, its device, when it acts, what it does
/// and the day on which it last did; a group keeps its identity, its name and its members. None is
/// taken over from a file with an identity that the database cannot hold.
pub proof fn law_files_are_taken_over_whole(
    rules: RuleFile,
    groups: GroupFile,
    rule: RuleRow,
    group: GroupRow,
    i: int,
    j: int,
)
    requires
        0 <= i < rules.rules@.len(),
        0 <= j < groups.groups@.len(),
        holds_rule(rule, rules.rules@[i]),
        holds_group(group, groups.groups@[j]),
    ensures
        rule.id == rules.rules@[i].id,
        rule.device_id == rules.rules@[i].device_id,
        rule.trigger == rules.rules@[i].trigger,
        rule.turn_on == rules.rules@[i].turn_on,
        rule.last_solar_day == rules.rules@[i].last_solar_day,
        group.id == groups.groups@[j].id,
        group.name == groups.groups@[j].name,
        group.device_ids == groups.groups@[j].device_ids,
        rules_fit(rules) <==> rules.next_id <= 0x7fff_ffff_ffff_ffff && forall|k: int|
            0 <= k < rules.rules@.len() ==> (#[trigger] rules.rules@[k]).id
                <= 0x7fff_ffff_ffff_ffff,
        groups_fit(groups) <==> groups.next_id <= 0x7fff_ffff_ffff_ffff && forall|k: int|
            0 <= k < groups.groups@.len() ==> (#[trigger] groups.groups@[k]).id
                <= 0x7fff_ffff_ffff_ffff,
{
}

/// Weather is kept for ninety days.
pub proof fn law_weather_is_kept_for_ninety_days(now: i64, cutoff: Option<i64>)
    requires
        cutoff == (if now - WEATHER_HISTORY_RETENTION >= i64::MIN {
            Some((now - WEATHER_HISTORY_RETENTION) as i64)
        } else {
            None
        }),
    ensures
        cutoff is Some ==> now - cutoff->0 == 90 * 24 * 60 * 60,
        now >= 0 ==> cutoff is Some,
{
}

} // verus!
