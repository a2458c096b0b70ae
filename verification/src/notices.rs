//! What the pages say of a request that was served, or of something that is not there.
use crate::forms::AppError;
use crate::text::{decimal_text, trim};
use vstd::prelude::*;
use vstd::string::*;

verus! {

/// What is said of a search for devices.
pub open spec fn scanned(count: nat) -> Seq<char> {
    "Scan complete: "@ + crate::text::decimal(count) + (if count == 1 {
        " device responded."@
    } else {
        " devices responded."@
    })
}

/// What is said of a search for devices.
pub fn scan_notice(count: usize) -> (notice: String)
    ensures
        notice@ == scanned(count as nat),
{
    let mut notice = "Scan complete: ".to_owned();
    notice.append(decimal_text(count as u64).as_str());
    notice.append(
        if count == 1 {
            " device responded."
        } else {
            " devices responded."
        },
    );
    notice
}

/// A name between quotation marks behind what was done.
pub open spec fn quoted(action: Seq<char>, name: Seq<char>) -> Seq<char> {
    action + " group “"@ + name + "”."@
}

fn group_notice(action: &str, name: &str) -> (notice: String)
    ensures
        notice@ == quoted(action@, name@),
{
    let mut notice = action.to_owned();
    notice.append(" group “");
    notice.append(name);
    notice.append("”.");
    notice
}

/// What is said of a group that was made.
pub fn created_notice(name: &str) -> (notice: String)
    ensures
        notice@ == quoted("Created"@, crate::text::trimmed(name@)),
{
    group_notice("Created", trim(name))
}

/// What is said of a group that was changed.
pub fn updated_notice(name: &str) -> (notice: String)
    ensures
        notice@ == quoted("Updated"@, crate::text::trimmed(name@)),
{
    group_notice("Updated", trim(name))
}

/// What is said of a group that was deleted.
pub fn deleted_notice(name: &str) -> (notice: String)
    ensures
        notice@ == quoted("Deleted"@, name@),
{
    group_notice("Deleted", name)
}

/// Whether an error says that something of a kind is not there.
pub open spec fn misses(error: AppError, kind: Seq<char>, id: Seq<char>) -> bool {
    error.status == 404 && error.message@ == kind + " "@ + id + " was not found"@
}

fn missing(kind: &str, id: &str) -> (error: AppError)
    ensures
        misses(error, kind@, id@),
{
    let mut message = kind.to_owned();
    message.append(" ");
    message.append(id);
    message.append(" was not found");
    AppError::not_found(message.as_str())
}

/// There is no such device.
pub fn missing_device(id: &str) -> (error: AppError)
    ensures
        misses(error, "device"@, id@),
{
    missing("device", id)
}

/// There is no such group.
pub fn missing_group(id: u64) -> (error: AppError)
    ensures
        misses(error, "group"@, crate::text::decimal(id as nat)),
{
    missing("group", decimal_text(id).as_str())
}

/// There is no such rule.
pub fn missing_automation(id: u64) -> (error: AppError)
    ensures
        misses(error, "automation"@, crate::text::decimal(id as nat)),
{
    missing("automation", decimal_text(id).as_str())
}

/// What is said of a search counts the devices, one of them in the singular.
pub proof fn law_searches_count_devices(count: nat)
    requires
        count != 1,
    ensures
        scanned(1) == "Scan complete: "@ + crate::text::decimal(1) + " device responded."@,
        scanned(count) == "Scan complete: "@ + crate::text::decimal(count)
            + " devices responded."@,
{
}

/// What is said of a group quotes its name behind what was done. What is not there is answered as
/// not found, by its kind and its identity.
pub proof fn law_names_are_quoted(
    action: Seq<char>,
    name: Seq<char>,
    error: AppError,
    kind: Seq<char>,
    id: Seq<char>,
)
    requires
        misses(error, kind, id),
    ensures
        quoted(action, name) == action + " group “"@ + name + "”."@,
        error.status == 404,
        error.message@ == kind + " "@ + id + " was not found"@,
{
}

} // verus!
