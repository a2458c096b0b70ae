//! Groups of plugs: their rules, and how pages show them.
use crate::automation::Coordinate;
use crate::engine::find_plug;
use crate::forms::{contains_text, AppError};
use crate::plug::SmartPlug;
use crate::text::{decimal_text, join, parse_number, same_text, starts_with, trim};
use vstd::prelude::*;
use vstd::string::*;

verus! {

/// The most groups that there can be.
pub const MAX_GROUPS: u64 = 50;

/// Plugs that are switched together.
#[derive(Debug, Clone, PartialEq, Eq)]
pub struct DeviceGroup {
    pub id: u64,
    pub name: String,
    pub device_ids: Vec<String>,
}

/// What the rules of a group are filed under.
pub open spec fn target_of(id: u64) -> Seq<char> {
    "group:"@ + crate::text::decimal(id as nat)
}

/// What the rules of a group are filed under.
pub fn automation_target(id: u64) -> (target: String)
    ensures
        target@ == target_of(id),
{
    let mut target = "group:".to_owned();
    target.append(decimal_text(id).as_str());
    target
}

/// The group whose rules are filed under a text, where that names one.
pub open spec fn group_of_target(target: Seq<char>) -> Option<u64> {
    if crate::text::begins(target, "group:"@) {
        crate::text::number_of(target.skip("group:"@.len() as int))
    } else {
        None
    }
}

/// The group whose rules are filed under a text, where that names one.
pub fn automation_group_id(target: &str) -> (id: Option<u64>)
    ensures
        id == group_of_target(target@),
{
    let prefix = "group:";
    if !starts_with(target, prefix) {
        return None;
    }
    let rest = target.substring_char(prefix.unicode_len(), target.unicode_len());
    proof {
        assert(rest@ =~= target@.skip("group:"@.len() as int));
    }
    parse_number(rest)
}

/// The group is read back from what its rules are filed under.
pub proof fn law_target_names_group(id: u64)
    ensures
        group_of_target(target_of(id)) == Some(id),
{
    crate::text::law_numeral_reads_back(id);
    let prefix = "group:"@;
    assert(target_of(id).take(prefix.len() as int) =~= prefix);
    assert(target_of(id).skip(prefix.len() as int) =~= crate::text::decimal(id as nat));
}

/// A group whose name and members are sound.
#[derive(Debug)]
pub struct ValidatedGroup {
    pub name: String,
    pub device_ids: Vec<String>,
}

/// Whether no text occurs twice.
pub open spec fn distinct(parts: Seq<Seq<char>>) -> bool {
    forall|i: int, j: int| 0 <= i < j < parts.len() ==> #[trigger] parts[i] != #[trigger] parts[j]
}

/// Whether no text is empty.
pub open spec fn none_empty(parts: Seq<Seq<char>>) -> bool {
    forall|i: int| 0 <= i < parts.len() ==> (#[trigger] parts[i]).len() > 0
}

/// Why a group is refused, if it is.
pub open spec fn group_refusal(name: Seq<char>, members: Seq<Seq<char>>) -> Option<Seq<char>> {
    let trimmed = crate::text::trimmed(name);
    if trimmed.len() == 0 {
        Some("group name cannot be empty"@)
    } else if trimmed.len() > crate::forms::MAX_NAME_LENGTH {
        Some("group name cannot exceed 64 characters"@)
    } else if members.len() == 0 {
        Some("select at least one device for the group"@)
    } else if !none_empty(members) {
        Some("group member IDs cannot be empty"@)
    } else if !distinct(members) {
        Some("a device can appear only once in a group"@)
    } else {
        None
    }
}

fn any_empty(parts: &Vec<String>) -> (result: bool)
    ensures
        result == !none_empty(crate::text::texts(parts@)),
{
    let mut index: usize = 0;
    while index < parts.len()
        invariant
            index <= parts@.len(),
            forall|i: int|
                0 <= i < index ==> (#[trigger] crate::text::texts(parts@)[i]).len() > 0,
        decreases parts@.len() - index,
    {
        proof {
            assert(crate::text::texts(parts@)[index as int] == parts@[index as int]@);
        }
        if parts[index].as_str().unicode_len() == 0 {
            return true;
        }
        index = index + 1;
    }
    false
}

fn any_repeated(parts: &Vec<String>) -> (result: bool)
    ensures
        result == !distinct(crate::text::texts(parts@)),
{
    let mut index: usize = 0;
    while index < parts.len()
        invariant
            index <= parts@.len(),
            forall|i: int, j: int|
                0 <= i < j < index ==> #[trigger] crate::text::texts(parts@)[i]
                    != #[trigger] crate::text::texts(parts@)[j],
        decreases parts@.len() - index,
    {
        proof {
            assert(crate::text::texts(parts@)[index as int] == parts@[index as int]@);
        }
        let mut earlier: usize = 0;
        while earlier < index
            invariant
                earlier <= index < parts@.len(),
                crate::text::texts(parts@)[index as int] == parts@[index as int]@,
                forall|i: int|
                    0 <= i < earlier ==> #[trigger] crate::text::texts(parts@)[i]
                        != crate::text::texts(parts@)[index as int],
            decreases index - earlier,
        {
            proof {
                assert(crate::text::texts(parts@)[earlier as int] == parts@[earlier as int]@);
            }
            if same_text(parts[earlier].as_str(), parts[index].as_str()) {
                return true;
            }
            earlier = earlier + 1;
        }
        index = index + 1;
    }
    false
}

/// Whether a group was validated as it should be.
pub open spec fn validates(
    result: Result<ValidatedGroup, AppError>,
    name: Seq<char>,
    device_ids: Vec<String>,
) -> bool {
    match group_refusal(name, crate::text::texts(device_ids@)) {
        Some(message) => result is Err && crate::forms::refuses(result->Err_0, message),
        None => result is Ok && result->Ok_0.name@ == crate::text::trimmed(name)
            && result->Ok_0.device_ids == device_ids,
    }
}

/// The group that was asked for: a name of at most sixty-four characters without the space
/// around it, and members that are distinct and not empty.
pub fn validated_group(name: &str, device_ids: Vec<String>) -> (result: Result<
    ValidatedGroup,
    AppError,
>)
    ensures
        validates(result, name@, device_ids),
{
    let trimmed = trim(name);
    let length: usize = trimmed.unicode_len();
    if length == 0 {
        return Err(AppError::bad_request("group name cannot be empty"));
    }
    if length > crate::forms::MAX_NAME_LENGTH {
        return Err(AppError::bad_request("group name cannot exceed 64 characters"));
    }
    if device_ids.len() == 0 {
        return Err(AppError::bad_request("select at least one device for the group"));
    }
    if any_empty(&device_ids) {
        return Err(AppError::bad_request("group member IDs cannot be empty"));
    }
    if any_repeated(&device_ids) {
        return Err(AppError::bad_request("a device can appear only once in a group"));
    }
    Ok(ValidatedGroup { name: trimmed.to_owned(), device_ids })
}

/// Whether a group was admitted to as many others as it should be.
pub open spec fn admits(result: Result<(), AppError>, count: nat) -> bool {
    if count >= MAX_GROUPS {
        result is Err && crate::forms::refuses(
            result->Err_0,
            "no more than 50 groups can be created"@,
        )
    } else {
        result is Ok
    }
}

/// Refuses a group where there are as many as there can be.
pub fn require_room(count: u64) -> (result: Result<(), AppError>)
    ensures
        admits(result, count as nat),
{
    if count >= MAX_GROUPS {
        return Err(AppError::bad_request("no more than 50 groups can be created"));
    }
    Ok(())
}

/// Whether a group is one that may be stored: it has a name of at most sixty-four characters, and
/// members that are distinct and not empty.
pub open spec fn sound_group(group: DeviceGroup) -> bool {
    let members = crate::text::texts(group.device_ids@);
    &&& 0 < group.name@.len() <= crate::forms::MAX_NAME_LENGTH
    &&& members.len() > 0
    &&& none_empty(members)
    &&& distinct(members)
}

/// Whether groups are ones that may be stored together: each is sound, no two have the same
/// identity, and there are not more than there can be.
pub open spec fn sound_groups(groups: Seq<DeviceGroup>) -> bool {
    &&& groups.len() <= MAX_GROUPS
    &&& forall|i: int| 0 <= i < groups.len() ==> sound_group(#[trigger] groups[i])
    &&& forall|i: int, j: int|
        0 <= i < j < groups.len() ==> (#[trigger] groups[i]).id != (#[trigger] groups[j]).id
}

/// Whether a group is the one that was asked for, and that was not refused.
pub open spec fn is_accepted(group: DeviceGroup, name: Seq<char>, members: Seq<Seq<char>>) -> bool {
    &&& group_refusal(name, members) is None
    &&& group.name@ == crate::text::trimmed(name)
    &&& crate::text::texts(group.device_ids@) == members
}

/// Stored groups stay sound, and never more than there can be, when one is added that is not
/// refused and for which there is room, when one is changed to another that is not refused, and
/// when one is deleted.
pub proof fn law_stored_groups_stay_sound(
    groups: Seq<DeviceGroup>,
    group: DeviceGroup,
    name: Seq<char>,
    members: Seq<Seq<char>>,
    index: int,
)
    requires
        sound_groups(groups),
        is_accepted(group, name, members),
    ensures
        groups.len() < MAX_GROUPS && (forall|i: int|
            0 <= i < groups.len() ==> (#[trigger] groups[i]).id != group.id) ==> sound_groups(
            groups.push(group),
        ),
        0 <= index < groups.len() && group.id == groups[index].id ==> sound_groups(
            groups.update(index, group),
        ),
        0 <= index < groups.len() ==> sound_groups(groups.remove(index)),
{
    assert(sound_group(group));
}

/// Whether groups are those before with one more row at the end, of an identity that none of them
/// has.
pub open spec fn inserts(
    before: Seq<DeviceGroup>,
    after: Seq<DeviceGroup>,
    id: u64,
    group: ValidatedGroup,
) -> bool {
    &&& forall|i: int| 0 <= i < before.len() ==> (#[trigger] before[i]).id != id
    &&& after == before.push(
        DeviceGroup { id, name: group.name, device_ids: group.device_ids },
    )
}

/// Whether a group was added to stored groups: it was validated, admitted to those that are
/// stored, and inserted, in this order, and the first refusal ended it. An identity comes out
/// where it was inserted.
pub open spec fn adds(
    before: Seq<DeviceGroup>,
    after: Seq<DeviceGroup>,
    added: Result<u64, AppError>,
    validated: Result<ValidatedGroup, AppError>,
    admitted: Result<(), AppError>,
) -> bool {
    match (validated, admitted) {
        (Err(error), _) => added == Err::<u64, AppError>(error) && after == before,
        (Ok(_), Err(error)) => added == Err::<u64, AppError>(error) && after == before,
        (Ok(group), Ok(_)) => added is Ok && inserts(before, after, added->Ok_0, group),
    }
}

/// Adding a group is refused exactly where there are as many groups as there can be or the group
/// is not sound, and leaves the stored groups as they were then. Else the stored groups are those
/// before and this one, with its trimmed name, its members in their order and an identity of its
/// own. So there are never more than there can be.
pub proof fn law_adding_a_group(
    before: Seq<DeviceGroup>,
    after: Seq<DeviceGroup>,
    added: Result<u64, AppError>,
    name: Seq<char>,
    device_ids: Vec<String>,
    validated: Result<ValidatedGroup, AppError>,
    admitted: Result<(), AppError>,
)
    requires
        sound_groups(before),
        validates(validated, name, device_ids),
        admits(admitted, before.len()),
        adds(before, after, added, validated, admitted),
    ensures
        added is Err <==> before.len() >= MAX_GROUPS || group_refusal(
            name,
            crate::text::texts(device_ids@),
        ) is Some,
        added is Err ==> after == before && crate::forms::refuses(
            added->Err_0,
            match group_refusal(name, crate::text::texts(device_ids@)) {
                Some(message) => message,
                None => "no more than 50 groups can be created"@,
            },
        ),
        added matches Ok(id) ==> {
            &&& forall|i: int| 0 <= i < before.len() ==> (#[trigger] before[i]).id != id
            &&& after.len() == before.len() + 1
            &&& after.drop_last() == before
            &&& after.last().id == id
            &&& after.last().name@ == crate::text::trimmed(name)
            &&& after.last().device_ids == device_ids
        },
        sound_groups(after),
        after.len() <= MAX_GROUPS,
{
    if added is Ok {
        let group = after.last();
        assert(after.drop_last() =~= before);
        law_stored_groups_stay_sound(
            before,
            group,
            name,
            crate::text::texts(device_ids@),
            0,
        );
    }
}

/// What stands for a device that is not in the inventory: the end of its identity.
pub open spec fn short_name(device_id: Seq<char>) -> Seq<char> {
    "Unavailable …"@ + (if device_id.len() > 8 {
        device_id.skip(device_id.len() - 8)
    } else {
        device_id
    })
}

/// What stands for a device that is not in the inventory.
pub fn short_device_id(device_id: &str) -> (text: String)
    ensures
        text@ == short_name(device_id@),
{
    let mut text = "Unavailable …".to_owned();
    let length: usize = device_id.unicode_len();
    if length > 8 {
        let suffix = device_id.substring_char(length - 8, length);
        proof {
            assert(suffix@ =~= device_id@.skip(length - 8));
        }
        text.append(suffix);
    } else {
        text.append(device_id);
    }
    text
}

/// A group as a page shows it.
#[derive(Debug)]
pub struct GroupView {
    pub id: u64,
    pub name: String,
    pub member_count: usize,
    pub reachable_count: usize,
    pub members: String,
    pub state: &'static str,
    pub state_class: &'static str,
    pub has_offline_members: bool,
}

/// The number of members among the first `count` that are in the inventory.
pub open spec fn known_members(members: Seq<Seq<char>>, plugs: Seq<SmartPlug>, count: int) -> int
    decreases count,
{
    if count <= 0 {
        0
    } else {
        known_members(members, plugs, count - 1) + (if crate::engine::plug_named(
            plugs,
            members[count - 1],
        ) is Some {
            1int
        } else {
            0
        })
    }
}

/// The number of members among the first `count` that are in the inventory and in a state.
pub open spec fn members_in_state(
    members: Seq<Seq<char>>,
    plugs: Seq<SmartPlug>,
    on: bool,
    count: int,
) -> int
    decreases count,
{
    if count <= 0 {
        0
    } else {
        let plug = crate::engine::plug_named(plugs, members[count - 1]);
        members_in_state(members, plugs, on, count - 1) + (if plug is Some && plugs[plug->0].relay_on
            == on {
            1int
        } else {
            0
        })
    }
}

/// What a member is called: its alias, or the end of its identity where it is not in the
/// inventory.
pub open spec fn member_name(plugs: Seq<SmartPlug>, device_id: Seq<char>) -> Seq<char> {
    match crate::engine::plug_named(plugs, device_id) {
        Some(index) => plugs[index].alias@,
        None => short_name(device_id),
    }
}

/// What the first `count` members are called.
pub open spec fn member_names(
    members: Seq<Seq<char>>,
    plugs: Seq<SmartPlug>,
    count: int,
) -> Seq<Seq<char>>
    decreases count,
{
    if count <= 0 {
        seq![]
    } else {
        member_names(members, plugs, count - 1).push(member_name(plugs, members[count - 1]))
    }
}

/// The state of a group, out of how many of its members are in the inventory, on and off.
pub open spec fn group_state(known: int, on: int, off: int) -> (Seq<char>, Seq<char>) {
    if known == 0 {
        ("Unavailable"@, "state-unavailable"@)
    } else if on == known {
        ("On"@, "state-on"@)
    } else if off == known {
        ("Off"@, "state-off"@)
    } else {
        ("Mixed"@, "state-mixed"@)
    }
}

/// Whether a view shows a group.
pub open spec fn shows_group(view: GroupView, group: DeviceGroup, plugs: Seq<SmartPlug>) -> bool {
    let members = crate::text::texts(group.device_ids@);
    let count = members.len() as int;
    let known = known_members(members, plugs, count);
    let state = group_state(
        known,
        members_in_state(members, plugs, true, count),
        members_in_state(members, plugs, false, count),
    );
    &&& view.id == group.id
    &&& view.name == group.name
    &&& view.member_count == count
    &&& view.reachable_count == known
    &&& view.members@ == crate::text::joined(member_names(members, plugs, count), ", "@)
    &&& view.state@ == state.0
    &&& view.state_class@ == state.1
    &&& view.has_offline_members == (known < count)
}

/// Whether some member is in the inventory and in a state.
pub open spec fn some_member_is(members: Seq<Seq<char>>, plugs: Seq<SmartPlug>, on: bool) -> bool {
    exists|i: int| 0 <= i < members.len() && member_is(members, plugs, on, i)
}

/// Whether a member is in the inventory and in a state.
pub open spec fn member_is(
    members: Seq<Seq<char>>,
    plugs: Seq<SmartPlug>,
    on: bool,
    index: int,
) -> bool {
    let plug = crate::engine::plug_named(plugs, members[index]);
    plug is Some && plugs[plug->0].relay_on == on
}

proof fn lemma_members_in_state(members: Seq<Seq<char>>, plugs: Seq<SmartPlug>, count: int)
    requires
        0 <= count <= members.len(),
    ensures
        known_members(members, plugs, count) == members_in_state(members, plugs, true, count)
            + members_in_state(members, plugs, false, count),
        forall|on: bool|
            #![trigger members_in_state(members, plugs, on, count)]
            members_in_state(members, plugs, on, count) >= 0 && (members_in_state(
                members,
                plugs,
                on,
                count,
            ) > 0 <==> exists|i: int| 0 <= i < count && member_is(members, plugs, on, i)),
    decreases count,
{
    if count > 0 {
        lemma_members_in_state(members, plugs, count - 1);
        assert forall|on: bool|
            #![trigger members_in_state(members, plugs, on, count)]
            members_in_state(members, plugs, on, count) >= 0 && (members_in_state(
                members,
                plugs,
                on,
                count,
            ) > 0 <==> exists|i: int| 0 <= i < count && member_is(members, plugs, on, i)) by {
            assert(members_in_state(members, plugs, on, count - 1) >= 0);
            assert(member_is(members, plugs, on, count - 1) <==> members_in_state(
                members,
                plugs,
                on,
                count,
            ) == members_in_state(members, plugs, on, count - 1) + 1);
        }
    }
}

/// A group is on or off where every member in the inventory is, mixed where they differ, and
/// unavailable where none is in the inventory.
pub proof fn law_group_state_speaks_for_members(
    view: GroupView,
    group: DeviceGroup,
    plugs: Seq<SmartPlug>,
)
    requires
        shows_group(view, group, plugs),
    ensures
        ({
            let members = crate::text::texts(group.device_ids@);
            let some_on = some_member_is(members, plugs, true);
            let some_off = some_member_is(members, plugs, false);
            view.state@ == if some_on && some_off {
                "Mixed"@
            } else if some_on {
                "On"@
            } else if some_off {
                "Off"@
            } else {
                "Unavailable"@
            }
        }),
{
    let members = crate::text::texts(group.device_ids@);
    let count = members.len() as int;
    lemma_members_in_state(members, plugs, count);
    assert(members_in_state(members, plugs, true, count) >= 0);
    assert(members_in_state(members, plugs, false, count) >= 0);
}

/// A group as a page shows it.
pub fn group_view(group: DeviceGroup, plugs: &Vec<SmartPlug>) -> (view: GroupView)
    ensures
        shows_group(view, group, plugs@),
{
    let ghost members = crate::text::texts(group.device_ids@);
    let mut names: Vec<String> = Vec::new();
    let mut known: usize = 0;
    let mut on: usize = 0;
    let mut off: usize = 0;
    let mut index: usize = 0;
    let count: usize = group.device_ids.len();
    proof {
        assert(crate::text::texts(names@) =~= seq![]);
    }
    while index < group.device_ids.len()
        invariant
            index <= count,
            count == group.device_ids@.len(),
            members == crate::text::texts(group.device_ids@),
            known == known_members(members, plugs@, index as int),
            on == members_in_state(members, plugs@, true, index as int),
            off == members_in_state(members, plugs@, false, index as int),
            known <= index,
            on <= index,
            off <= index,
            crate::text::texts(names@) == member_names(members, plugs@, index as int),
        decreases count - index,
    {
        let device_id = group.device_ids[index].as_str();
        let ghost before = names@;
        proof {
            assert(members[index as int] == device_id@);
        }
        let name = match find_plug(plugs, device_id) {
            Some(plug) => {
                known = known + 1;
                if plugs[plug].relay_on {
                    on = on + 1;
                } else {
                    off = off + 1;
                }
                plugs[plug].alias.clone()
            },
            None => short_device_id(device_id),
        };
        names.push(name);
        proof {
            assert(crate::text::texts(names@) =~= crate::text::texts(before).push(name@));
        }
        index = index + 1;
    }
    let (state, state_class) = if known == 0 {
        ("Unavailable", "state-unavailable")
    } else if on == known {
        ("On", "state-on")
    } else if off == known {
        ("Off", "state-off")
    } else {
        ("Mixed", "state-mixed")
    };
    GroupView {
        id: group.id,
        name: group.name,
        member_count: count,
        reachable_count: known,
        members: join(&names, ", "),
        state,
        state_class,
        has_offline_members: known < count,
    }
}

/// A device that a group may have.
#[derive(Debug)]
pub struct GroupDeviceOption {
    pub field_name: String,
    pub device_id: String,
    pub alias: String,
    pub available: bool,
    pub selected: bool,
}

/// The panel in which a group is made or changed.
#[derive(Debug)]
pub struct GroupPanel {
    pub id: Option<u64>,
    pub name: String,
    pub devices: Vec<GroupDeviceOption>,
    pub editing: bool,
}

/// The identities of plugs.
pub open spec fn identities(plugs: Seq<SmartPlug>) -> Seq<Seq<char>> {
    plugs.map_values(|plug: SmartPlug| plug.device_id@)
}

/// The mathematical value of an option.
#[verifier::ext_equal]
pub struct Choice {
    pub field_name: Seq<char>,
    pub device_id: Seq<char>,
    pub alias: Seq<char>,
    pub available: bool,
    pub selected: bool,
}

impl View for GroupDeviceOption {
    type V = Choice;

    open spec fn view(&self) -> Choice {
        Choice {
            field_name: self.field_name@,
            device_id: self.device_id@,
            alias: self.alias@,
            available: self.available,
            selected: self.selected,
        }
    }
}

/// The name of the field of an option.
pub open spec fn field_name(index: int) -> Seq<char> {
    "device_"@ + crate::text::decimal(index as nat)
}

/// The options for the first `count` plugs: each is available, and selected where the group
/// has it.
pub open spec fn plug_choices(
    plugs: Seq<SmartPlug>,
    members: Seq<Seq<char>>,
    count: int,
) -> Seq<Choice>
    decreases count,
{
    if count <= 0 {
        seq![]
    } else {
        let plug = plugs[count - 1];
        plug_choices(plugs, members, count - 1).push(
            Choice {
                field_name: field_name(count - 1),
                device_id: plug.device_id@,
                alias: plug.alias@,
                available: true,
                selected: members.contains(plug.device_id@),
            },
        )
    }
}

/// The options for the first `count` members, behind those of the plugs: each that is not in
/// the inventory stays selected.
pub open spec fn missing_choices(
    plugs: Seq<SmartPlug>,
    members: Seq<Seq<char>>,
    count: int,
) -> Seq<Choice>
    decreases count,
{
    if count <= 0 {
        plug_choices(plugs, members, plugs.len() as int)
    } else {
        let front = missing_choices(plugs, members, count - 1);
        let member = members[count - 1];
        if identities(plugs).contains(member) {
            front
        } else {
            front.push(
                Choice {
                    field_name: field_name(front.len() as int),
                    device_id: member,
                    alias: short_name(member),
                    available: false,
                    selected: true,
                },
            )
        }
    }
}

/// The mathematical values of options.
pub open spec fn choices(options: Seq<GroupDeviceOption>) -> Seq<Choice> {
    options.map_values(|option: GroupDeviceOption| option@)
}

fn field_text(index: usize) -> (text: String)
    ensures
        text@ == field_name(index as int),
{
    let mut text = "device_".to_owned();
    text.append(decimal_text(index as u64).as_str());
    text
}

fn knows_device(plugs: &Vec<SmartPlug>, device_id: &str) -> (result: bool)
    ensures
        result == identities(plugs@).contains(device_id@),
{
    let mut index: usize = 0;
    while index < plugs.len()
        invariant
            index <= plugs@.len(),
            forall|i: int| 0 <= i < index ==> #[trigger] identities(plugs@)[i] != device_id@,
        decreases plugs@.len() - index,
    {
        proof {
            assert(identities(plugs@)[index as int] == plugs@[index as int].device_id@);
        }
        if same_text(plugs[index].device_id.as_str(), device_id) {
            return true;
        }
        index = index + 1;
    }
    false
}

fn group_choices(plugs: &Vec<SmartPlug>, members: &Vec<String>) -> (devices: Vec<GroupDeviceOption>)
    ensures
        choices(devices@) == missing_choices(
            plugs@,
            crate::text::texts(members@),
            members@.len() as int,
        ),
{
    let ghost names = crate::text::texts(members@);
    let mut devices: Vec<GroupDeviceOption> = Vec::new();
    let mut index: usize = 0;
    proof {
        assert(choices(devices@) =~= seq![]);
    }
    while index < plugs.len()
        invariant
            index <= plugs@.len(),
            names == crate::text::texts(members@),
            choices(devices@) == plug_choices(plugs@, names, index as int),
        decreases plugs@.len() - index,
    {
        let ghost before = devices@;
        let plug = &plugs[index];
        let option = GroupDeviceOption {
            field_name: field_text(index),
            device_id: plug.device_id.clone(),
            alias: plug.alias.clone(),
            available: true,
            selected: contains_text(members, plug.device_id.as_str()),
        };
        devices.push(option);
        proof {
            assert(choices(devices@) =~= choices(before).push(option@));
        }
        index = index + 1;
    }
    let mut next: usize = 0;
    while next < members.len()
        invariant
            next <= members@.len(),
            names == crate::text::texts(members@),
            choices(devices@) == missing_choices(plugs@, names, next as int),
        decreases members@.len() - next,
    {
        let member = members[next].as_str();
        proof {
            assert(names[next as int] == member@);
            assert(choices(devices@).len() == devices@.len());
        }
        if !knows_device(plugs, member) {
            let ghost before = devices@;
            let option = GroupDeviceOption {
                field_name: field_text(devices.len()),
                device_id: members[next].clone(),
                alias: short_device_id(member),
                available: false,
                selected: true,
            };
            devices.push(option);
            proof {
                assert(choices(devices@) =~= choices(before).push(option@));
            }
        }
        next = next + 1;
    }
    devices
}

/// Whether a panel offers what a group may have.
pub open spec fn offers(panel: GroupPanel, group: Option<&DeviceGroup>, plugs: Seq<SmartPlug>) -> bool {
    match group {
        Some(group) => {
            let members = crate::text::texts(group.device_ids@);
            &&& panel.id == Some(group.id)
            &&& panel.name@ == group.name@
            &&& panel.editing
            &&& choices(panel.devices@) == missing_choices(plugs, members, members.len() as int)
        },
        None => {
            &&& panel.id is None
            &&& panel.name@.len() == 0
            &&& !panel.editing
            &&& choices(panel.devices@) == missing_choices(plugs, seq![], 0)
        },
    }
}

/// The panel in which a group is made or changed.
pub fn group_panel(group: Option<&DeviceGroup>, plugs: &Vec<SmartPlug>) -> (panel: GroupPanel)
    ensures
        offers(panel, group, plugs@),
{
    match group {
        Some(group) => GroupPanel {
            id: Some(group.id),
            name: group.name.clone(),
            devices: group_choices(plugs, &group.device_ids),
            editing: true,
        },
        None => {
            let none: Vec<String> = Vec::new();
            proof {
                assert(crate::text::texts(none@) =~= seq![]);
            }
            GroupPanel {
                id: None,
                name: String::new(),
                devices: group_choices(plugs, &none),
                editing: false,
            }
        },
    }
}

/// Each member of a group that is not in the inventory stays selected in its panel, so that
/// it leaves the group only when it is taken out.
pub proof fn law_missing_members_stay_selected(
    plugs: Seq<SmartPlug>,
    members: Seq<Seq<char>>,
    member: int,
    count: int,
)
    requires
        0 <= member < count <= members.len(),
        !identities(plugs).contains(members[member]),
    ensures
        exists|i: int|
            0 <= i < missing_choices(plugs, members, count).len() && ({
                let choice = #[trigger] missing_choices(plugs, members, count)[i];
                choice.device_id == members[member] && choice.selected && !choice.available
            }),
    decreases count,
{
    let front = missing_choices(plugs, members, count - 1);
    let all = missing_choices(plugs, members, count);
    if member == count - 1 {
        assert(all[front.len() as int].device_id == members[member]);
    } else {
        law_missing_members_stay_selected(plugs, members, member, count - 1);
        let i = choose|i: int|
            0 <= i < front.len() && ({
                let choice = #[trigger] front[i];
                choice.device_id == members[member] && choice.selected && !choice.available
            });
        assert(all[i] == front[i]);
    }
}

proof fn lemma_choices(plugs: Seq<SmartPlug>, members: Seq<Seq<char>>, count: int)
    requires
        0 <= count <= plugs.len(),
    ensures
        plug_choices(plugs, members, count).len() == count,
        forall|i: int|
            #![trigger plug_choices(plugs, members, count)[i]]
            0 <= i < count ==> {
                let choice = plug_choices(plugs, members, count)[i];
                &&& choice.field_name == field_name(i)
                &&& choice.device_id == plugs[i].device_id@
                &&& choice.selected == members.contains(plugs[i].device_id@)
            },
    decreases count,
{
    if count > 0 {
        lemma_choices(plugs, members, count - 1);
        let front = plug_choices(plugs, members, count - 1);
        assert forall|i: int|
            #![trigger plug_choices(plugs, members, count)[i]]
            0 <= i < count implies {
            let choice = plug_choices(plugs, members, count)[i];
            &&& choice.field_name == field_name(i)
            &&& choice.device_id == plugs[i].device_id@
            &&& choice.selected == members.contains(plugs[i].device_id@)
        } by {
            if i < count - 1 {
                assert(plug_choices(plugs, members, count)[i] == front[i]);
            }
        }
    }
}

/// Whether a choice behind those of the plugs is one for a member that is not in the inventory.
spec fn is_missing(choice: Choice, plugs: Seq<SmartPlug>, members: Seq<Seq<char>>, count: int) -> bool {
    &&& choice.selected
    &&& !identities(plugs).contains(choice.device_id)
    &&& exists|k: int| 0 <= k < count && #[trigger] members[k] == choice.device_id
}

proof fn lemma_missing_choices(plugs: Seq<SmartPlug>, members: Seq<Seq<char>>, count: int)
    requires
        0 <= count <= members.len(),
        distinct(members),
    ensures
        ({
            let all = missing_choices(plugs, members, count);
            &&& all.len() >= plugs.len()
            &&& forall|i: int| 0 <= i < all.len() ==> (#[trigger] all[i]).field_name == field_name(i)
            &&& forall|i: int|
                0 <= i < plugs.len() ==> (#[trigger] all[i]).device_id == plugs[i].device_id@
                    && all[i].selected == members.contains(plugs[i].device_id@)
            &&& forall|i: int|
                plugs.len() <= i < all.len() ==> is_missing(#[trigger] all[i], plugs, members, count)
            &&& forall|i: int, j: int|
                plugs.len() <= i < j < all.len() ==> (#[trigger] all[i]).device_id != (
                #[trigger] all[j]).device_id
        }),
    decreases count,
{
    let all = missing_choices(plugs, members, count);
    if count == 0 {
        lemma_choices(plugs, members, plugs.len() as int);
    } else {
        lemma_missing_choices(plugs, members, count - 1);
        let front = missing_choices(plugs, members, count - 1);
        assert forall|i: int| plugs.len() <= i < all.len() implies is_missing(
            #[trigger] all[i],
            plugs,
            members,
            count,
        ) by {
            if i < front.len() {
                assert(all[i] == front[i]);
                assert(is_missing(front[i], plugs, members, count - 1));
            } else {
                assert(members[count - 1] == all[i].device_id);
            }
        }
        assert forall|i: int, j: int| plugs.len() <= i < j < all.len() implies (
        #[trigger] all[i]).device_id != (#[trigger] all[j]).device_id by {
            assert(all[i] == front[i]);
            if j < front.len() {
                assert(all[j] == front[j]);
            } else {
                assert(is_missing(front[i], plugs, members, count - 1));
                let k = choose|k: int|
                    0 <= k < count - 1 && #[trigger] members[k] == front[i].device_id;
                assert(members[k] != members[count - 1]);
            }
        }
        assert forall|i: int| 0 <= i < all.len() implies (#[trigger] all[i]).field_name
            == field_name(i) by {
            if i < front.len() {
                assert(all[i] == front[i]);
            }
        }
        assert forall|i: int| 0 <= i < plugs.len() implies (#[trigger] all[i]).device_id
            == plugs[i].device_id@ && all[i].selected == members.contains(plugs[i].device_id@) by {
            assert(all[i] == front[i]);
        }
    }
}

/// Whether a field of a form is the one of a selected choice.
pub open spec fn is_field_of(field: crate::forms::FormField, choice: Choice) -> bool {
    choice.selected && field.name@ == choice.field_name && field.value@ == choice.device_id
}

/// Whether a form has one field for each selected choice, and no other field.
pub open spec fn submits(fields: Seq<crate::forms::FormField>, all: Seq<Choice>) -> bool {
    &&& forall|i: int|
        #![trigger fields[i]]
        0 <= i < fields.len() ==> exists|k: int|
            0 <= k < all.len() && is_field_of(fields[i], #[trigger] all[k])
    &&& forall|k: int|
        #![trigger all[k]]
        0 <= k < all.len() && all[k].selected ==> exists|i: int|
            0 <= i < fields.len() && is_field_of(#[trigger] fields[i], all[k])
    &&& forall|i: int, j: int|
        0 <= i < j < fields.len() ==> (#[trigger] fields[i]).name@ != (#[trigger] fields[j]).name@
}

proof fn lemma_device_values(fields: Seq<crate::forms::FormField>, count: int)
    requires
        0 <= count <= fields.len(),
        forall|i: int|
            0 <= i < count ==> crate::text::begins((#[trigger] fields[i]).name@, "device_"@),
    ensures
        crate::forms::device_values(fields, count).len() == count,
        forall|i: int|
            0 <= i < count ==> #[trigger] crate::forms::device_values(fields, count)[i]
                == fields[i].value@,
    decreases count,
{
    if count > 0 {
        lemma_device_values(fields, count - 1);
        let front = crate::forms::device_values(fields, count - 1);
        assert(crate::text::begins(fields[count - 1].name@, "device_"@));
        assert forall|i: int| 0 <= i < count implies #[trigger] crate::forms::device_values(
            fields,
            count,
        )[i] == fields[i].value@ by {
            if i < count - 1 {
                assert(crate::forms::device_values(fields, count)[i] == front[i]);
            }
        }
    }
}

proof fn lemma_same_members(left: Seq<Seq<char>>, right: Seq<Seq<char>>)
    requires
        left.no_duplicates(),
        right.no_duplicates(),
        forall|part: Seq<char>| #[trigger] left.contains(part) <==> right.contains(part),
    ensures
        left.to_multiset() == right.to_multiset(),
{
    left.lemma_multiset_has_no_duplicates();
    right.lemma_multiset_has_no_duplicates();
    left.to_multiset_ensures();
    right.to_multiset_ensures();
    assert forall|part: Seq<char>| #[trigger] left.to_multiset().count(part)
        == right.to_multiset().count(part) by {
        assert(left.contains(part) <==> right.contains(part));
        if left.contains(part) {
            assert(left.to_multiset().contains(part));
            assert(right.to_multiset().contains(part));
        }
    }
    assert(left.to_multiset() =~= right.to_multiset());
}

/// Whether no two choices are for one device.
spec fn once_each(all: Seq<Choice>) -> bool {
    forall|i: int, j: int|
        0 <= i < j < all.len() ==> (#[trigger] all[i]).device_id != (#[trigger] all[j]).device_id
}

proof fn lemma_once_each(plugs: Seq<SmartPlug>, members: Seq<Seq<char>>)
    requires
        distinct(identities(plugs)),
        distinct(members),
    ensures
        once_each(missing_choices(plugs, members, members.len() as int)),
{
    let all = missing_choices(plugs, members, members.len() as int);
    lemma_missing_choices(plugs, members, members.len() as int);
    assert forall|i: int, j: int| 0 <= i < j < all.len() implies (#[trigger] all[i]).device_id != (
    #[trigger] all[j]).device_id by {
        if i < plugs.len() {
            assert(identities(plugs)[i] == all[i].device_id);
            if j < plugs.len() {
                assert(identities(plugs)[j] == all[j].device_id);
            } else {
                assert(is_missing(all[j], plugs, members, members.len() as int));
            }
        }
    }
}

proof fn lemma_fields_name_devices(
    plugs: Seq<SmartPlug>,
    members: Seq<Seq<char>>,
    fields: Seq<crate::forms::FormField>,
)
    requires
        distinct(members),
        submits(fields, missing_choices(plugs, members, members.len() as int)),
    ensures
        forall|i: int|
            0 <= i < fields.len() ==> crate::text::begins((#[trigger] fields[i]).name@, "device_"@),
{
    let all = missing_choices(plugs, members, members.len() as int);
    lemma_missing_choices(plugs, members, members.len() as int);
    assert forall|i: int| 0 <= i < fields.len() implies crate::text::begins(
        (#[trigger] fields[i]).name@,
        "device_"@,
    ) by {
        let k = choose|k: int| 0 <= k < all.len() && is_field_of(fields[i], #[trigger] all[k]);
        assert(all[k].field_name == field_name(k));
        assert(field_name(k).take("device_"@.len() as int) =~= "device_"@);
    }
}

proof fn lemma_values_differ(fields: Seq<crate::forms::FormField>, all: Seq<Choice>, i: int, j: int)
    requires
        submits(fields, all),
        once_each(all),
        0 <= i < j < fields.len(),
    ensures
        fields[i].value@ != fields[j].value@,
{
    let a = choose|k: int| 0 <= k < all.len() && is_field_of(fields[i], #[trigger] all[k]);
    let b = choose|k: int| 0 <= k < all.len() && is_field_of(fields[j], #[trigger] all[k]);
    assert(is_field_of(fields[i], all[a]));
    assert(is_field_of(fields[j], all[b]));
    assert(fields[i].name@ != fields[j].name@);
    if a < b {
        assert(all[a].device_id != all[b].device_id);
    } else if b < a {
        assert(all[b].device_id != all[a].device_id);
    }
}

proof fn lemma_value_is_member(
    plugs: Seq<SmartPlug>,
    members: Seq<Seq<char>>,
    fields: Seq<crate::forms::FormField>,
    i: int,
)
    requires
        distinct(members),
        submits(fields, missing_choices(plugs, members, members.len() as int)),
        0 <= i < fields.len(),
    ensures
        members.contains(fields[i].value@),
{
    let all = missing_choices(plugs, members, members.len() as int);
    lemma_missing_choices(plugs, members, members.len() as int);
    let k = choose|k: int| 0 <= k < all.len() && is_field_of(fields[i], #[trigger] all[k]);
    assert(is_field_of(fields[i], all[k]));
    if k >= plugs.len() {
        assert(is_missing(all[k], plugs, members, members.len() as int));
    }
}

proof fn lemma_member_is_submitted(
    plugs: Seq<SmartPlug>,
    members: Seq<Seq<char>>,
    fields: Seq<crate::forms::FormField>,
    m: int,
) -> (i: int)
    requires
        distinct(members),
        submits(fields, missing_choices(plugs, members, members.len() as int)),
        0 <= m < members.len(),
    ensures
        0 <= i < fields.len(),
        fields[i].value@ == members[m],
{
    let all = missing_choices(plugs, members, members.len() as int);
    lemma_missing_choices(plugs, members, members.len() as int);
    let k = if identities(plugs).contains(members[m]) {
        let p = choose|p: int|
            0 <= p < identities(plugs).len() && identities(plugs)[p] == members[m];
        assert(all[p].device_id == plugs[p].device_id@);
        assert(members.contains(plugs[p].device_id@));
        p
    } else {
        law_missing_members_stay_selected(plugs, members, m, members.len() as int);
        choose|i: int|
            0 <= i < all.len() && ({
                let choice = #[trigger] all[i];
                choice.device_id == members[m] && choice.selected && !choice.available
            })
    };
    assert(all[k].selected && all[k].device_id == members[m]);
    let i = choose|i: int| 0 <= i < fields.len() && is_field_of(#[trigger] fields[i], all[k]);
    assert(is_field_of(fields[i], all[k]));
    i
}

/// Submitting the panel of a group unchanged keeps its name and each of its members, those that
/// are not in the inventory as well, and adds none.
pub proof fn law_unchanged_panel_keeps_the_group(
    panel: GroupPanel,
    group: DeviceGroup,
    plugs: Seq<SmartPlug>,
    fields: Seq<crate::forms::FormField>,
    submitted: Seq<Seq<char>>,
)
    requires
        offers(panel, Some(&group), plugs),
        distinct(identities(plugs)),
        distinct(crate::text::texts(group.device_ids@)),
        submits(fields, choices(panel.devices@)),
        submitted.to_multiset() == crate::forms::device_values(
            fields,
            fields.len() as int,
        ).to_multiset(),
    ensures
        panel.name@ == group.name@,
        submitted.to_multiset() == crate::text::texts(group.device_ids@).to_multiset(),
{
    let members = crate::text::texts(group.device_ids@);
    let all = choices(panel.devices@);
    let values = crate::forms::device_values(fields, fields.len() as int);
    lemma_once_each(plugs, members);
    lemma_fields_name_devices(plugs, members, fields);
    lemma_device_values(fields, fields.len() as int);
    assert forall|i: int, j: int| 0 <= i < values.len() && 0 <= j < values.len() && i != j implies values[i]
        != values[j] by {
        if i < j {
            lemma_values_differ(fields, all, i, j);
        } else {
            lemma_values_differ(fields, all, j, i);
        }
    }
    assert forall|part: Seq<char>| #[trigger] values.contains(part) <==> members.contains(part) by {
        if values.contains(part) {
            let i = choose|i: int| 0 <= i < values.len() && values[i] == part;
            lemma_value_is_member(plugs, members, fields, i);
        }
        if members.contains(part) {
            let m = choose|m: int| 0 <= m < members.len() && members[m] == part;
            let i = lemma_member_is_submitted(plugs, members, fields, m);
            assert(values[i] == part);
        }
    }
    lemma_same_members(values, members);
}

/// Whether a plug knows its place.
pub open spec fn located(plug: SmartPlug) -> bool {
    crate::automation::place_of(plug) is Some
}

/// The first member from `from` on that is in the inventory, and knows its place where that
/// is asked.
pub open spec fn first_member(
    members: Seq<Seq<char>>,
    plugs: Seq<SmartPlug>,
    must_be_located: bool,
    from: int,
) -> Option<int>
    decreases members.len() - from,
{
    if from < 0 || from >= members.len() {
        None
    } else {
        match crate::engine::plug_named(plugs, members[from]) {
            Some(plug) if must_be_located ==> located(plugs[plug]) => Some(plug),
            _ => first_member(members, plugs, must_be_located, from + 1),
        }
    }
}

/// The plug whose place stands for a group: the first member that knows its place, or else
/// the first that is in the inventory.
pub open spec fn location_plug(members: Seq<Seq<char>>, plugs: Seq<SmartPlug>) -> Option<int> {
    match first_member(members, plugs, true, 0) {
        Some(plug) => Some(plug),
        None => first_member(members, plugs, false, 0),
    }
}

fn find_member(group: &DeviceGroup, plugs: &Vec<SmartPlug>, must_be_located: bool) -> (plug: Option<
    usize,
>)
    ensures
        match plug {
            Some(plug) => plug < plugs@.len() && first_member(
                crate::text::texts(group.device_ids@),
                plugs@,
                must_be_located,
                0,
            ) == Some(plug as int),
            None => first_member(
                crate::text::texts(group.device_ids@),
                plugs@,
                must_be_located,
                0,
            ) is None,
        },
{
    let ghost members = crate::text::texts(group.device_ids@);
    let mut index: usize = 0;
    while index < group.device_ids.len()
        invariant
            index <= group.device_ids@.len(),
            members == crate::text::texts(group.device_ids@),
            first_member(members, plugs@, must_be_located, 0) == first_member(
                members,
                plugs@,
                must_be_located,
                index as int,
            ),
        decreases group.device_ids@.len() - index,
    {
        proof {
            assert(members[index as int] == group.device_ids@[index as int]@);
        }
        match find_plug(plugs, group.device_ids[index].as_str()) {
            Some(plug) => {
                if !must_be_located || Coordinate::from_plug(&plugs[plug]).is_some() {
                    return Some(plug);
                }
            },
            None => {},
        }
        index = index + 1;
    }
    None
}

/// The plug whose place stands for a group, by its place in the inventory.
pub fn group_location_plug(group: &DeviceGroup, plugs: &Vec<SmartPlug>) -> (plug: Option<usize>)
    ensures
        match plug {
            Some(plug) => plug < plugs@.len() && location_plug(
                crate::text::texts(group.device_ids@),
                plugs@,
            ) == Some(plug as int),
            None => location_plug(crate::text::texts(group.device_ids@), plugs@) is None,
        },
{
    match find_member(group, plugs, true) {
        Some(plug) => Some(plug),
        None => find_member(group, plugs, false),
    }
}

/// Refuses a plug that does not know its place.
pub fn require_location(plug: &SmartPlug) -> (result: Result<(), AppError>)
    ensures
        if located(*plug) {
            result is Ok
        } else {
            result is Err && crate::forms::refuses(
                result->Err_0,
                "this plug does not have location coordinates configured"@,
            )
        },
{
    if Coordinate::from_plug(plug).is_none() {
        return Err(
            AppError::bad_request("this plug does not have location coordinates configured"),
        );
    }
    Ok(())
}

/// The plug whose place stands for a group, which must know it.
pub fn require_group_location(group: &DeviceGroup, plugs: &Vec<SmartPlug>) -> (result: Result<
    usize,
    AppError,
>)
    ensures
        match location_plug(crate::text::texts(group.device_ids@), plugs@) {
            None => result is Err && crate::forms::refuses(
                result->Err_0,
                "the group has no remembered members with a location"@,
            ),
            Some(plug) => if located(plugs@[plug]) {
                result is Ok && result->Ok_0 == plug
            } else {
                result is Err && crate::forms::refuses(
                    result->Err_0,
                    "this plug does not have location coordinates configured"@,
                )
            },
        },
{
    match group_location_plug(group, plugs) {
        Some(plug) => match require_location(&plugs[plug]) {
            Ok(_) => Ok(plug),
            Err(error) => Err(error),
        },
        None => Err(AppError::bad_request("the group has no remembered members with a location")),
    }
}

/// The plugs among the first `count` that a group has.
pub open spec fn targets(plugs: Seq<SmartPlug>, members: Seq<Seq<char>>, count: int) -> Seq<usize>
    decreases count,
{
    if count <= 0 {
        seq![]
    } else if members.contains(plugs[count - 1].device_id@) {
        targets(plugs, members, count - 1).push((count - 1) as usize)
    } else {
        targets(plugs, members, count - 1)
    }
}

/// The plugs that a command to a group goes to, by their places in the inventory.
pub fn group_targets(group: &DeviceGroup, plugs: &Vec<SmartPlug>) -> (result: Vec<usize>)
    ensures
        result@ == targets(
            plugs@,
            crate::text::texts(group.device_ids@),
            plugs@.len() as int,
        ),
{
    let mut result: Vec<usize> = Vec::new();
    let mut index: usize = 0;
    while index < plugs.len()
        invariant
            index <= plugs@.len(),
            result@ == targets(plugs@, crate::text::texts(group.device_ids@), index as int),
        decreases plugs@.len() - index,
    {
        if contains_text(&group.device_ids, plugs[index].device_id.as_str()) {
            result.push(index);
        }
        index = index + 1;
    }
    result
}

/// What is said of a command to a group.
pub open spec fn relay_notice(name: Seq<char>, on: bool, controlled: int, unavailable: int) -> Seq<
    char,
> {
    if controlled == 0 {
        "No members of “"@ + name + "” could be controlled."@
    } else {
        let action = if on {
            "Turned on"@
        } else {
            "Turned off"@
        };
        let noun = if controlled == 1 {
            "device"@
        } else {
            "devices"@
        };
        let notice = action + " "@ + crate::text::decimal(controlled as nat) + " "@ + noun
            + " in “"@ + name + "”."@;
        if unavailable > 0 {
            let members = if unavailable == 1 {
                "member was"@
            } else {
                "members were"@
            };
            notice + " "@ + crate::text::decimal(unavailable as nat) + " "@ + members
                + " unavailable."@
        } else {
            notice
        }
    }
}

/// What is said of a command to a group: how many devices it reached, and how many members
/// it did not.
pub fn group_relay_notice(name: &str, on: bool, controlled: usize, unavailable: usize) -> (notice:
    String)
    ensures
        notice@ == relay_notice(name@, on, controlled as int, unavailable as int),
{
    if controlled == 0 {
        let mut notice = "No members of “".to_owned();
        notice.append(name);
        notice.append("” could be controlled.");
        return notice;
    }
    let mut notice = if on {
        "Turned on".to_owned()
    } else {
        "Turned off".to_owned()
    };
    notice.append(" ");
    notice.append(decimal_text(controlled as u64).as_str());
    notice.append(" ");
    notice.append(
        if controlled == 1 {
            "device"
        } else {
            "devices"
        },
    );
    notice.append(" in “");
    notice.append(name);
    notice.append("”.");
    if unavailable > 0 {
        notice.append(" ");
        notice.append(decimal_text(unavailable as u64).as_str());
        notice.append(" ");
        notice.append(
            if unavailable == 1 {
                "member was"
            } else {
                "members were"
            },
        );
        notice.append(" unavailable.");
    }
    notice
}

/// The members of a group that a command did not reach: those that are not in the inventory,
/// and those that failed.
pub fn unavailable_members(member_count: usize, target_count: usize, failed: usize) -> (count: usize)
    requires
        failed <= target_count,
    ensures
        count == (if member_count >= target_count {
            member_count - target_count + failed
        } else {
            failed as int
        }),
{
    if member_count >= target_count {
        member_count - target_count + failed
    } else {
        failed
    }
}

/// A group is taken exactly where its name has one to sixty-four characters without the space
/// around it, and its members are some, each with an identity, and none twice. It keeps them in
/// their order.
pub proof fn law_groups_are_taken(
    name: Seq<char>,
    device_ids: Vec<String>,
    result: Result<ValidatedGroup, AppError>,
)
    requires
        validates(result, name, device_ids),
    ensures
        result is Ok <==> {
            &&& 1 <= crate::text::trimmed(name).len() <= 64
            &&& device_ids@.len() >= 1
            &&& forall|i: int|
                0 <= i < device_ids@.len() ==> (#[trigger] device_ids@[i])@.len() >= 1
            &&& forall|i: int, j: int|
                0 <= i < j < device_ids@.len() ==> (#[trigger] device_ids@[i])@ != (
                #[trigger] device_ids@[j])@
        },
        result is Ok ==> result->Ok_0.name@ == crate::text::trimmed(name)
            && result->Ok_0.device_ids == device_ids,
        result is Err ==> result->Err_0.status == 400,
{
    let members = crate::text::texts(device_ids@);
    assert forall|i: int| 0 <= i < members.len() implies #[trigger] members[i]
        == device_ids@[i]@ by {}
    if result is Ok {
        assert forall|i: int| 0 <= i < device_ids@.len() implies (
        #[trigger] device_ids@[i])@.len() >= 1 by {
            assert(members[i].len() > 0);
        }
        assert forall|i: int, j: int| 0 <= i < j < device_ids@.len() implies (
        #[trigger] device_ids@[i])@ != (#[trigger] device_ids@[j])@ by {
            assert(members[i] != members[j]);
        }
    }
    if forall|i: int| 0 <= i < device_ids@.len() ==> (#[trigger] device_ids@[i])@.len() >= 1 {
        assert forall|i: int| 0 <= i < members.len() implies (
        #[trigger] members[i]).len() > 0 by {
            assert(device_ids@[i]@.len() >= 1);
        }
        assert(none_empty(members));
    }
    if forall|i: int, j: int|
        0 <= i < j < device_ids@.len() ==> (#[trigger] device_ids@[i])@ != (
        #[trigger] device_ids@[j])@ {
        assert forall|i: int, j: int| 0 <= i < j < members.len() implies #[trigger] members[i]
            != #[trigger] members[j] by {
            assert(device_ids@[i]@ != device_ids@[j]@);
        }
        assert(distinct(members));
    }
}

/// There are fifty groups at most: one more is taken exactly where there are fewer.
pub proof fn law_fifty_groups_at_most(result: Result<(), AppError>, count: nat)
    requires
        admits(result, count),
    ensures
        result is Ok <==> count < 50,
{
}

/// A command to a group goes to exactly the plugs of the inventory that are members, in the order
/// of the inventory.
pub proof fn law_commands_go_to_members(
    group: DeviceGroup,
    plugs: Seq<SmartPlug>,
    count: int,
    plug: int,
)
    requires
        0 <= count <= plugs.len() <= usize::MAX,
    ensures
        ({
            let result = targets(plugs, crate::text::texts(group.device_ids@), count);
            &&& (exists|i: int| 0 <= i < result.len() && #[trigger] result[i] == plug) <==> 0
                <= plug < count && exists|m: int|
                0 <= m < group.device_ids@.len() && (#[trigger] group.device_ids@[m])@
                    == plugs[plug].device_id@
            &&& forall|i: int| 0 <= i < result.len() ==> #[trigger] result[i] < count
            &&& forall|i: int, j: int|
                0 <= i < j < result.len() ==> #[trigger] result[i] < #[trigger] result[j]
        }),
    decreases count,
{
    let members = crate::text::texts(group.device_ids@);
    if count > 0 {
        law_commands_go_to_members(group, plugs, count - 1, plug);
        let front = targets(plugs, members, count - 1);
        let all = targets(plugs, members, count);
        let id = plugs[count - 1].device_id@;
        if members.contains(id) {
            let m = choose|m: int| 0 <= m < members.len() && members[m] == id;
            assert(group.device_ids@[m]@ == id);
            assert(all == front.push((count - 1) as usize));
            assert(all[front.len() as int] == count - 1);
            if exists|i: int| 0 <= i < front.len() && #[trigger] front[i] == plug {
                let i = choose|i: int| 0 <= i < front.len() && #[trigger] front[i] == plug;
                assert(all[i] == plug);
            }
            if plug != count - 1 && exists|i: int| 0 <= i < all.len() && #[trigger] all[i] == plug {
                let i = choose|i: int| 0 <= i < all.len() && #[trigger] all[i] == plug;
                assert(front[i] == plug);
            }
        } else if exists|m: int|
            0 <= m < group.device_ids@.len() && (#[trigger] group.device_ids@[m])@ == id {
            let m = choose|m: int|
                0 <= m < group.device_ids@.len() && (#[trigger] group.device_ids@[m])@ == id;
            assert(members[m] == id);
        }
    }
}

/// Whether a plug of the inventory is the one that a member stands for: of several of its identity
/// the last.
pub open spec fn stands_for(plugs: Seq<SmartPlug>, member: Seq<char>, plug: int) -> bool {
    &&& 0 <= plug < plugs.len()
    &&& plugs[plug].device_id@ == member
    &&& forall|p: int| plug < p < plugs.len() ==> (#[trigger] plugs[p]).device_id@ != member
}

proof fn lemma_stands_for(plugs: Seq<SmartPlug>, member: Seq<char>, plug: int)
    ensures
        stands_for(plugs, member, plug) <==> crate::engine::plug_named(plugs, member) == Some(plug),
{
    crate::engine::lemma_plug_named(plugs, member);
}

proof fn lemma_first_member(
    members: Seq<Seq<char>>,
    plugs: Seq<SmartPlug>,
    must_be_located: bool,
    from: int,
)
    requires
        0 <= from <= members.len(),
    ensures
        match first_member(members, plugs, must_be_located, from) {
            Some(plug) => exists|m: int|
                from <= m < members.len() && stands_for(plugs, #[trigger] members[m], plug) && (
                must_be_located ==> located(plugs[plug])) && forall|n: int, other: int|
                    from <= n < m && #[trigger] stands_for(plugs, members[n], other)
                        ==> must_be_located && !located(plugs[other]),
            None => forall|n: int, other: int|
                from <= n < members.len() && #[trigger] stands_for(plugs, members[n], other)
                    ==> must_be_located && !located(plugs[other]),
        },
    decreases members.len() - from,
{
    if from < members.len() {
        crate::engine::lemma_plug_named(plugs, members[from]);
        assert forall|other: int| #[trigger] stands_for(plugs, members[from], other) implies
            crate::engine::plug_named(plugs, members[from]) == Some(other) by {
            lemma_stands_for(plugs, members[from], other);
        }
        let named = crate::engine::plug_named(plugs, members[from]);
        if named is Some && (must_be_located ==> located(plugs[named->0])) {
            lemma_stands_for(plugs, members[from], named->0);
            assert(stands_for(plugs, members[from], named->0));
        } else {
            lemma_first_member(members, plugs, must_be_located, from + 1);
            match first_member(members, plugs, must_be_located, from + 1) {
                Some(plug) => {
                    let m = choose|m: int|
                        from + 1 <= m < members.len() && stands_for(
                            plugs,
                            #[trigger] members[m],
                            plug,
                        ) && (must_be_located ==> located(plugs[plug])) && forall|
                            n: int,
                            other: int,
                        |
                            from + 1 <= n < m && #[trigger] stands_for(plugs, members[n], other)
                                ==> must_be_located && !located(plugs[other]);
                    assert forall|n: int, other: int|
                        from <= n < m && #[trigger] stands_for(
                            plugs,
                            members[n],
                            other,
                        ) implies must_be_located && !located(plugs[other]) by {
                        if n == from {
                            lemma_stands_for(plugs, members[from], other);
                        }
                    }
                },
                None => {
                    assert forall|n: int, other: int|
                        from <= n < members.len() && #[trigger] stands_for(
                            plugs,
                            members[n],
                            other,
                        ) implies must_be_located && !located(plugs[other]) by {
                        if n == from {
                            lemma_stands_for(plugs, members[from], other);
                        }
                    }
                },
            }
        }
    }
}

/// The place of a group is that of its first member in the inventory that knows both its latitude
/// and its longitude, and a group has none where no member does.
pub proof fn law_groups_are_where_their_members_are(
    group: DeviceGroup,
    plugs: Seq<SmartPlug>,
    result: Result<usize, AppError>,
)
    requires
        match location_plug(crate::text::texts(group.device_ids@), plugs) {
            None => result is Err && crate::forms::refuses(
                result->Err_0,
                "the group has no remembered members with a location"@,
            ),
            Some(plug) => if located(plugs[plug]) {
                result is Ok && result->Ok_0 == plug
            } else {
                result is Err && crate::forms::refuses(
                    result->Err_0,
                    "this plug does not have location coordinates configured"@,
                )
            },
        },
    ensures
        result is Ok ==> exists|m: int|
            0 <= m < group.device_ids@.len() && stands_for(
                plugs,
                (#[trigger] group.device_ids@[m])@,
                result->Ok_0 as int,
            ) && plugs[result->Ok_0 as int].latitude is Some
                && plugs[result->Ok_0 as int].longitude is Some && forall|n: int, other: int|
                0 <= n < m && #[trigger] stands_for(plugs, group.device_ids@[n]@, other)
                    ==> plugs[other].latitude is None || plugs[other].longitude is None,
        result is Err <==> forall|n: int, other: int|
            0 <= n < group.device_ids@.len() && #[trigger] stands_for(
                plugs,
                group.device_ids@[n]@,
                other,
            ) ==> plugs[other].latitude is None || plugs[other].longitude is None,
        result is Err ==> result->Err_0.status == 400,
{
    let members = crate::text::texts(group.device_ids@);
    assert forall|n: int| 0 <= n < members.len() implies #[trigger] members[n]
        == group.device_ids@[n]@ by {}
    lemma_first_member(members, plugs, true, 0);
    lemma_first_member(members, plugs, false, 0);
    match first_member(members, plugs, true, 0) {
        Some(plug) => {
            let m = choose|m: int|
                0 <= m < members.len() && stands_for(plugs, #[trigger] members[m], plug)
                    && located(plugs[plug]) && forall|n: int, other: int|
                    0 <= n < m && #[trigger] stands_for(plugs, members[n], other) ==> !located(
                        plugs[other],
                    );
            assert(members[m] == group.device_ids@[m]@);
            assert(stands_for(plugs, group.device_ids@[m]@, plug));
            assert forall|n: int, other: int|
                0 <= n < m && #[trigger] stands_for(
                    plugs,
                    group.device_ids@[n]@,
                    other,
                ) implies plugs[other].latitude is None || plugs[other].longitude is None by {
                assert(stands_for(plugs, members[n], other));
                assert(!located(plugs[other]));
            }
        },
        None => {
            assert forall|n: int, other: int|
                0 <= n < members.len() && #[trigger] stands_for(
                    plugs,
                    group.device_ids@[n]@,
                    other,
                ) implies plugs[other].latitude is None || plugs[other].longitude is None by {
                assert(stands_for(plugs, members[n], other));
                assert(!located(plugs[other]));
            }
            match first_member(members, plugs, false, 0) {
                Some(plug) => {
                    let m = choose|m: int|
                        0 <= m < members.len() && stands_for(plugs, #[trigger] members[m], plug);
                    assert(stands_for(plugs, members[m], plug));
                    assert(!located(plugs[plug]));
                },
                None => {},
            }
        },
    }
}

/// Whether no plug of the inventory has an identity.
pub open spec fn in_no_plug(plugs: Seq<SmartPlug>, member: Seq<char>) -> bool {
    forall|p: int| 0 <= p < plugs.len() ==> (#[trigger] plugs[p]).device_id@ != member
}

/// The class that colours a group goes with its state, and a group lacks members exactly where
/// some member is not in the inventory.
pub proof fn law_groups_count_their_members(
    view: GroupView,
    group: DeviceGroup,
    plugs: Seq<SmartPlug>,
)
    requires
        shows_group(view, group, plugs),
    ensures
        view.state@ == "On"@ ==> view.state_class@ == "state-on"@,
        view.state@ == "Off"@ ==> view.state_class@ == "state-off"@,
        view.state@ == "Mixed"@ ==> view.state_class@ == "state-mixed"@,
        view.state@ == "Unavailable"@ ==> view.state_class@ == "state-unavailable"@,
        view.member_count == group.device_ids@.len(),
        view.has_offline_members <==> exists|m: int|
            0 <= m < group.device_ids@.len() && in_no_plug(
                plugs,
                (#[trigger] group.device_ids@[m])@,
            ),
        view.has_offline_members <==> view.reachable_count < view.member_count,
{
    reveal_strlit("On");
    reveal_strlit("Off");
    reveal_strlit("Mixed");
    reveal_strlit("Unavailable");
    assert("On"@.len() == 2 && "Off"@.len() == 3 && "Mixed"@.len() == 5);
    assert("Unavailable"@.len() == 11);
    let members = crate::text::texts(group.device_ids@);
    lemma_known_members(members, plugs, members.len() as int);
    assert forall|m: int| 0 <= m < members.len() implies #[trigger] members[m]
        == group.device_ids@[m]@ by {}
    assert forall|m: int| 0 <= m < members.len() implies (crate::engine::plug_named(
        plugs,
        #[trigger] members[m],
    ) is None <==> in_no_plug(plugs, members[m])) by {
        crate::engine::lemma_plug_named(plugs, members[m]);
    }
    if view.has_offline_members {
        let m = choose|m: int|
            0 <= m < members.len() && crate::engine::plug_named(plugs, #[trigger] members[m])
                is None;
        assert(group.device_ids@[m]@ == members[m]);
    }
    if exists|m: int|
        0 <= m < group.device_ids@.len() && in_no_plug(plugs, (#[trigger] group.device_ids@[m])@) {
        let m = choose|m: int|
            0 <= m < group.device_ids@.len() && in_no_plug(
                plugs,
                (#[trigger] group.device_ids@[m])@,
            );
        assert(members[m] == group.device_ids@[m]@);
    }
}

proof fn lemma_known_members(members: Seq<Seq<char>>, plugs: Seq<SmartPlug>, count: int)
    requires
        0 <= count <= members.len(),
    ensures
        0 <= known_members(members, plugs, count) <= count,
        known_members(members, plugs, count) < count <==> exists|m: int|
            0 <= m < count && crate::engine::plug_named(plugs, #[trigger] members[m]) is None,
    decreases count,
{
    if count > 0 {
        lemma_known_members(members, plugs, count - 1);
        if known_members(members, plugs, count) < count && known_members(
            members,
            plugs,
            count - 1,
        ) == count - 1 {
            assert(crate::engine::plug_named(plugs, members[count - 1]) is None);
        }
    }
}

/// What is said of a command to a group tells what was done to how many devices, and how many
/// members it did not reach, each in the number of its grammar.
pub proof fn law_notices_count(name: Seq<char>, on: bool, controlled: int, unavailable: int)
    requires
        controlled >= 0,
        unavailable >= 0,
    ensures
        ({
            let notice = relay_notice(name, on, controlled, unavailable);
            let reached = crate::text::decimal(controlled as nat);
            let lost = crate::text::decimal(unavailable as nat);
            &&& controlled == 0 ==> notice == "No members of “"@ + name
                + "” could be controlled."@
            &&& on && controlled == 1 && unavailable == 0 ==> notice == "Turned on"@ + " "@
                + reached + " "@ + "device"@ + " in “"@ + name + "”."@
            &&& !on && controlled == 1 && unavailable == 0 ==> notice == "Turned off"@ + " "@
                + reached + " "@ + "device"@ + " in “"@ + name + "”."@
            &&& on && controlled > 1 && unavailable == 0 ==> notice == "Turned on"@ + " "@
                + reached + " "@ + "devices"@ + " in “"@ + name + "”."@
            &&& !on && controlled > 1 && unavailable == 0 ==> notice == "Turned off"@ + " "@
                + reached + " "@ + "devices"@ + " in “"@ + name + "”."@
            &&& controlled > 0 && unavailable == 1 ==> notice == relay_notice(
                name,
                on,
                controlled,
                0,
            ) + " "@ + lost + " "@ + "member was"@ + " unavailable."@
            &&& controlled > 0 && unavailable > 1 ==> notice == relay_notice(
                name,
                on,
                controlled,
                0,
            ) + " "@ + lost + " "@ + "members were"@ + " unavailable."@
        }),
{
}

proof fn lemma_plug_choice(
    plugs: Seq<SmartPlug>,
    members: Seq<Seq<char>>,
    count: int,
    i: int,
)
    requires
        0 <= i < count <= plugs.len(),
    ensures
        plug_choices(plugs, members, count).len() == count,
        plug_choices(plugs, members, count)[i] == (Choice {
            field_name: field_name(i),
            device_id: plugs[i].device_id@,
            alias: plugs[i].alias@,
            available: true,
            selected: members.contains(plugs[i].device_id@),
        }),
    decreases count,
{
    let front = plug_choices(plugs, members, count - 1);
    if count > 1 {
        lemma_plug_choice(plugs, members, count - 1, 0);
    }
    if i < count - 1 {
        lemma_plug_choice(plugs, members, count - 1, i);
    }
    assert(front.len() == count - 1);
}

proof fn lemma_first_choices(
    plugs: Seq<SmartPlug>,
    members: Seq<Seq<char>>,
    count: int,
    i: int,
)
    requires
        0 <= count <= members.len(),
        0 <= i < plugs.len(),
    ensures
        i < missing_choices(plugs, members, count).len(),
        missing_choices(plugs, members, count)[i] == plug_choices(
            plugs,
            members,
            plugs.len() as int,
        )[i],
    decreases count,
{
    if count > 0 {
        lemma_first_choices(plugs, members, count - 1, i);
    } else {
        lemma_plug_choice(plugs, members, plugs.len() as int, i);
    }
}

/// The options of a panel begin with the plugs of the inventory in their order, each available and
/// selected exactly where it is a member.
pub proof fn law_panels_offer_every_plug(
    panel: GroupPanel,
    group: DeviceGroup,
    plugs: Seq<SmartPlug>,
    i: int,
)
    requires
        offers(panel, Some(&group), plugs),
        0 <= i < plugs.len(),
    ensures
        i < panel.devices@.len(),
        panel.devices@[i].device_id@ == plugs[i].device_id@,
        panel.devices@[i].alias@ == plugs[i].alias@,
        panel.devices@[i].available,
        panel.devices@[i].selected <==> exists|m: int|
            0 <= m < group.device_ids@.len() && (#[trigger] group.device_ids@[m])@
                == plugs[i].device_id@,
        panel.devices@[i].field_name@ == "device_"@ + crate::text::decimal(i as nat),
{
    let members = crate::text::texts(group.device_ids@);
    let all = choices(panel.devices@);
    let id = plugs[i].device_id@;
    lemma_first_choices(plugs, members, members.len() as int, i);
    lemma_plug_choice(plugs, members, plugs.len() as int, i);
    assert(all.len() == panel.devices@.len());
    assert(all[i] == panel.devices@[i]@);
    if members.contains(id) {
        let m = choose|m: int| 0 <= m < members.len() && members[m] == id;
        assert(group.device_ids@[m]@ == id);
    }
    if exists|m: int|
        0 <= m < group.device_ids@.len() && (#[trigger] group.device_ids@[m])@ == id {
        let m = choose|m: int|
            0 <= m < group.device_ids@.len() && (#[trigger] group.device_ids@[m])@ == id;
        assert(members[m] == id);
    }
}

/// A panel for a new group offers the plugs and selects none.
pub proof fn law_new_panels_select_nothing(panel: GroupPanel, plugs: Seq<SmartPlug>, i: int)
    requires
        offers(panel, None, plugs),
        0 <= i < plugs.len(),
    ensures
        panel.id is None,
        i < panel.devices@.len(),
        panel.devices@[i].device_id@ == plugs[i].device_id@,
        !panel.devices@[i].selected,
{
    let all = choices(panel.devices@);
    lemma_first_choices(plugs, seq![], 0, i);
    lemma_plug_choice(plugs, seq![], plugs.len() as int, i);
    assert(all.len() == panel.devices@.len());
    assert(all[i] == panel.devices@[i]@);
}

/// A device that is not in the inventory is called by the last eight characters of its identity,
/// or by all of them where there are no more.
pub proof fn law_short_names_end_identities(front: Seq<char>, end: Seq<char>)
    requires
        end.len() <= 8,
        front.len() > 0 ==> end.len() == 8,
    ensures
        short_name(front + end) == "Unavailable …"@ + end,
{
    let whole = front + end;
    if front.len() > 0 {
        assert(whole.skip(whole.len() - 8) =~= end);
    } else {
        assert(whole =~= end);
    }
}

/// The members of a group are named in their order, each by its alias where it is in the inventory.
pub proof fn law_members_are_named(
    members: Seq<Seq<char>>,
    plugs: Seq<SmartPlug>,
    count: int,
    m: int,
    plug: int,
)
    requires
        0 <= m < count <= members.len(),
    ensures
        member_names(members, plugs, count).len() == count,
        stands_for(plugs, members[m], plug) ==> member_names(members, plugs, count)[m]
            == plugs[plug].alias@,
        in_no_plug(plugs, members[m]) ==> member_names(members, plugs, count)[m] == short_name(
            members[m],
        ),
    decreases count,
{
    if count > 1 {
        law_members_are_named(members, plugs, count - 1, 0, plug);
    }
    if m < count - 1 {
        law_members_are_named(members, plugs, count - 1, m, plug);
    }
    assert(member_names(members, plugs, count - 1).len() == count - 1);
    lemma_stands_for(plugs, members[m], plug);
    crate::engine::lemma_plug_named(plugs, members[m]);
}

/// A group is refused for the first thing that is wrong with it: its name, that it has no members,
/// a member without an identity, then one that occurs twice.
pub proof fn law_groups_say_what_is_wrong(
    name: Seq<char>,
    device_ids: Vec<String>,
    result: Result<ValidatedGroup, AppError>,
    i: int,
    j: int,
)
    requires
        validates(result, name, device_ids),
    ensures
        ({
            let length = crate::text::trimmed(name).len();
            let count = device_ids@.len();
            let whole = forall|k: int|
                0 <= k < count ==> (#[trigger] device_ids@[k])@.len() >= 1;
            &&& length == 0 ==> result is Err && result->Err_0.message@
                == "group name cannot be empty"@
            &&& length > 64 ==> result is Err && result->Err_0.message@
                == "group name cannot exceed 64 characters"@
            &&& 1 <= length <= 64 && count == 0 ==> result is Err && result->Err_0.message@
                == "select at least one device for the group"@
            &&& 1 <= length <= 64 && 0 <= i < count && device_ids@[i]@.len() == 0 ==> result is Err
                && result->Err_0.message@ == "group member IDs cannot be empty"@
            &&& 1 <= length <= 64 && whole && 0 <= i < j < count && device_ids@[i]@
                == device_ids@[j]@ ==> result is Err && result->Err_0.message@
                == "a device can appear only once in a group"@
        }),
{
    let members = crate::text::texts(device_ids@);
    let count = device_ids@.len();
    assert forall|k: int| 0 <= k < members.len() implies #[trigger] members[k]
        == device_ids@[k]@ by {}
    if 0 <= i < count {
        assert(members[i] == device_ids@[i]@);
    }
    if 0 <= i < j < count {
        assert(members[j] == device_ids@[j]@);
    }
    if forall|k: int| 0 <= k < count ==> (#[trigger] device_ids@[k])@.len() >= 1 {
        assert forall|k: int| 0 <= k < members.len() implies (#[trigger] members[k]).len() > 0 by {
            assert(device_ids@[k]@.len() >= 1);
        }
        assert(none_empty(members));
    }
}

} // verus!
