//! The inventory of the interface: remembered devices and groups, with what was just seen of
//! them.
use crate::api::{
    ApiError, MAX_DEVICES, MAX_GROUP_MEMBERS, MAX_INVENTORY_BYTES, MAX_INVENTORY_GROUPS,
};
use crate::control::StoredDevice;
use crate::group::DeviceGroup;
use crate::json::{Json, Tree};
use crate::plug::SmartPlug;
use crate::report::relay_state;
use crate::text::{decimal_text, same_text};
use vstd::prelude::*;
use vstd::string::*;

verus! {

/// What a probe of a remembered address showed.
#[derive(Debug)]
pub enum ProbeStatus {
    /// The device answered.
    Online(SmartPlug),
    /// Nothing answered.
    Offline,
    /// Something else answered.
    Unknown,
}

/// What a probe of the address of a device showed.
pub open spec fn status_after(expected: Seq<char>, probe: Option<SmartPlug>) -> ProbeStatus {
    match probe {
        Some(device) => if device.device_id@ == expected {
            ProbeStatus::Online(device)
        } else {
            ProbeStatus::Unknown
        },
        None => ProbeStatus::Offline,
    }
}

/// What a probe of the address of a device showed.
pub fn probe_status(expected: &str, probe: Option<SmartPlug>) -> (status: ProbeStatus)
    ensures
        status == status_after(expected@, probe),
{
    match probe {
        Some(device) => if same_text(device.device_id.as_str(), expected) {
            ProbeStatus::Online(device)
        } else {
            ProbeStatus::Unknown
        },
        None => ProbeStatus::Offline,
    }
}

/// What a probe showed of a device.
#[derive(Debug)]
pub struct DeviceStatus {
    pub device_id: String,
    pub status: ProbeStatus,
}

/// What was seen of a device; of several sights the last.
pub open spec fn status_of(statuses: Seq<DeviceStatus>, device_id: Seq<char>) -> Option<ProbeStatus>
    decreases statuses.len(),
{
    if statuses.len() == 0 {
        None
    } else if statuses.last().device_id@ == device_id {
        Some(statuses.last().status)
    } else {
        status_of(statuses.drop_last(), device_id)
    }
}

/// The devices that answered, among the first `count` that were probed.
pub open spec fn answered(statuses: Seq<DeviceStatus>, count: int) -> Seq<SmartPlug>
    decreases count,
{
    if count <= 0 {
        seq![]
    } else {
        match statuses[count - 1].status {
            ProbeStatus::Online(device) => answered(statuses, count - 1).push(device),
            _ => answered(statuses, count - 1),
        }
    }
}

/// The devices whose state is to be stored after a probe: those that answered.
pub fn fresh_states(statuses: &Vec<DeviceStatus>) -> (devices: Vec<SmartPlug>)
    ensures
        devices@ == answered(statuses@, statuses@.len() as int),
{
    let mut devices: Vec<SmartPlug> = Vec::new();
    let mut index: usize = 0;
    while index < statuses.len()
        invariant
            index <= statuses@.len(),
            devices@ == answered(statuses@, index as int),
        decreases statuses@.len() - index,
    {
        match &statuses[index].status {
            ProbeStatus::Online(device) => {
                devices.push(device.duplicate());
            },
            _ => {},
        }
        index = index + 1;
    }
    devices
}

fn find_status<'a>(statuses: &'a Vec<DeviceStatus>, device_id: &str) -> (status: Option<
    &'a ProbeStatus,
>)
    ensures
        match status {
            Some(status) => status_of(statuses@, device_id@) == Some(*status),
            None => status_of(statuses@, device_id@) is None,
        },
{
    let mut count: usize = statuses.len();
    proof {
        assert(statuses@.take(statuses@.len() as int) =~= statuses@);
    }
    while count > 0
        invariant
            count <= statuses@.len(),
            status_of(statuses@, device_id@) == status_of(
                statuses@.take(count as int),
                device_id@,
            ),
        decreases count,
    {
        proof {
            assert(statuses@.take(count as int).drop_last() =~= statuses@.take(count - 1));
        }
        if same_text(statuses[count - 1].device_id.as_str(), device_id) {
            return Some(&statuses[count - 1].status);
        }
        count = count - 1;
    }
    None
}

/// What a device or a group can do.
#[derive(Debug, Clone, Copy, PartialEq, Eq, Structural)]
pub struct Capabilities {
    pub relay: bool,
    pub brightness: bool,
}

/// The state of a device, with the time it was seen.
#[derive(Debug, Clone, Copy)]
pub struct InventoryDeviceState {
    pub relay: &'static str,
    pub brightness: Option<u8>,
    pub observed_at: i64,
}

/// A device of the inventory.
#[derive(Debug)]
pub struct InventoryDevice {
    pub id: String,
    pub name: String,
    pub capabilities: Capabilities,
    pub availability: &'static str,
    pub last_seen_at: i64,
    pub state: InventoryDeviceState,
}

/// Whether an entry shows a device as it was at a time.
pub open spec fn shows_device(
    entry: InventoryDevice,
    id: Seq<char>,
    device: SmartPlug,
    availability: Seq<char>,
    observed_at: i64,
) -> bool {
    &&& entry.id@ == id
    &&& entry.name@ == device.alias@
    &&& entry.capabilities.relay
    &&& entry.capabilities.brightness == (device.brightness is Some)
    &&& entry.availability@ == availability
    &&& entry.last_seen_at == observed_at
    &&& entry.state.relay@ == crate::report::relay_name(device.relay_on)
    &&& entry.state.brightness == device.brightness
    &&& entry.state.observed_at == observed_at
}

/// Whether an entry shows a remembered device: what was just seen where it is online, and
/// what is remembered otherwise.
pub open spec fn lists_device(
    entry: InventoryDevice,
    remembered: StoredDevice,
    status: Option<ProbeStatus>,
    now: i64,
) -> bool {
    let id = remembered.device.device_id@;
    match status {
        Some(ProbeStatus::Online(device)) => shows_device(entry, id, device, "online"@, now),
        Some(ProbeStatus::Offline) => shows_device(
            entry,
            id,
            remembered.device,
            "offline"@,
            remembered.last_seen_at,
        ),
        _ => shows_device(
            entry,
            id,
            remembered.device,
            "unknown"@,
            remembered.last_seen_at,
        ),
    }
}

/// The entry of a remembered device.
pub fn inventory_device(remembered: &StoredDevice, status: Option<&ProbeStatus>, now: i64) -> (
    entry: InventoryDevice)
    ensures
        lists_device(
            entry,
            *remembered,
            match status {
                Some(status) => Some(*status),
                None => None,
            },
            now,
        ),
{
    let (device, availability, observed_at) = match status {
        Some(ProbeStatus::Online(device)) => (device, "online", now),
        Some(ProbeStatus::Offline) => (&remembered.device, "offline", remembered.last_seen_at),
        _ => (&remembered.device, "unknown", remembered.last_seen_at),
    };
    InventoryDevice {
        id: remembered.device.device_id.clone(),
        name: device.alias.clone(),
        capabilities: Capabilities { relay: true, brightness: device.brightness.is_some() },
        availability,
        last_seen_at: observed_at,
        state: InventoryDeviceState {
            relay: relay_state(device.relay_on),
            brightness: device.brightness,
            observed_at,
        },
    }
}

/// How many members of a group there are, and what was seen of them.
#[derive(Debug, Clone, Copy, PartialEq, Eq, Structural)]
pub struct MemberCounts {
    pub total: usize,
    pub online: usize,
    pub offline: usize,
    pub unknown: usize,
}

/// The state of a group, with the time it was seen.
#[derive(Debug, Clone, Copy)]
pub struct GroupState {
    pub relay: &'static str,
    pub observed_at: Option<i64>,
}

/// A group of the inventory.
#[derive(Debug)]
pub struct InventoryGroup {
    pub id: String,
    pub name: String,
    pub member_ids: Vec<String>,
    pub capabilities: Capabilities,
    pub availability: &'static str,
    pub members: MemberCounts,
    pub state: GroupState,
}

/// Whether a member was just seen.
pub open spec fn is_online(statuses: Seq<DeviceStatus>, member: Seq<char>) -> bool {
    status_of(statuses, member) matches Some(ProbeStatus::Online(_))
}

/// Whether a member was just seen in a state.
pub open spec fn is_in_state(statuses: Seq<DeviceStatus>, member: Seq<char>, on: bool) -> bool {
    status_of(statuses, member) matches Some(ProbeStatus::Online(device)) && device.relay_on == on
}

/// Whether nothing answered for a member.
pub open spec fn is_offline(statuses: Seq<DeviceStatus>, member: Seq<char>) -> bool {
    status_of(statuses, member) matches Some(ProbeStatus::Offline)
}

/// The numbers of the first `count` members that were seen, on, off, and offline.
pub open spec fn tally(members: Seq<Seq<char>>, statuses: Seq<DeviceStatus>, count: int) -> (
    int,
    int,
    int,
    int,
)
    decreases count,
{
    if count <= 0 {
        (0, 0, 0, 0)
    } else {
        let (online, on, off, offline) = tally(members, statuses, count - 1);
        let member = members[count - 1];
        (
            if is_online(statuses, member) {
                online + 1
            } else {
                online
            },
            if is_in_state(statuses, member, true) {
                on + 1
            } else {
                on
            },
            if is_in_state(statuses, member, false) {
                off + 1
            } else {
                off
            },
            if is_offline(statuses, member) {
                offline + 1
            } else {
                offline
            },
        )
    }
}

/// The word for how far a group can be reached.
pub open spec fn availability_name(total: int, online: int, offline: int) -> Seq<char> {
    let unknown = total - online - offline;
    if total == 0 || unknown == total {
        "unknown"@
    } else if online == total {
        "online"@
    } else if online > 0 {
        "partial"@
    } else if offline > 0 && unknown == 0 {
        "offline"@
    } else {
        "unknown"@
    }
}

/// The state of the relays of a group as a whole, where it is known.
pub open spec fn relay_summary(total: int, online: int, on: int, off: int) -> Option<Seq<char>> {
    if online == total && on == total {
        Some("on"@)
    } else if online == total && off == total {
        Some("off"@)
    } else if on > 0 && off > 0 {
        Some("mixed"@)
    } else {
        None
    }
}

/// Whether an entry shows a group.
pub open spec fn lists_group(
    entry: InventoryGroup,
    group: DeviceGroup,
    statuses: Seq<DeviceStatus>,
    now: i64,
) -> bool {
    let members = crate::text::texts(group.device_ids@);
    let total = members.len() as int;
    let (online, on, off, offline) = tally(members, statuses, total);
    &&& entry.id@ == crate::text::decimal(group.id as nat)
    &&& entry.name == group.name
    &&& entry.member_ids == group.device_ids
    &&& entry.capabilities == (Capabilities { relay: true, brightness: false })
    &&& entry.availability@ == availability_name(total, online, offline)
    &&& entry.members.total == total
    &&& entry.members.online == online
    &&& entry.members.offline == offline
    &&& entry.members.unknown == total - online - offline
    &&& match relay_summary(total, online, on, off) {
        Some(relay) => entry.state.relay@ == relay && entry.state.observed_at == Some(now),
        None => entry.state.relay@ == "unknown"@ && entry.state.observed_at is None,
    }
}

/// The entry of a group.
pub fn inventory_group(group: DeviceGroup, statuses: &Vec<DeviceStatus>, now: i64) -> (entry:
    InventoryGroup)
    ensures
        lists_group(entry, group, statuses@, now),
{
    let ghost members = crate::text::texts(group.device_ids@);
    let total: usize = group.device_ids.len();
    let mut online: usize = 0;
    let mut on: usize = 0;
    let mut off: usize = 0;
    let mut offline: usize = 0;
    let mut index: usize = 0;
    while index < group.device_ids.len()
        invariant
            index <= total,
            total == group.device_ids@.len(),
            members == crate::text::texts(group.device_ids@),
            tally(members, statuses@, index as int) == (
                online as int,
                on as int,
                off as int,
                offline as int,
            ),
            online + offline <= index,
            on + off == online,
        decreases total - index,
    {
        proof {
            assert(members[index as int] == group.device_ids@[index as int]@);
        }
        match find_status(statuses, group.device_ids[index].as_str()) {
            Some(ProbeStatus::Online(device)) => {
                online = online + 1;
                if device.relay_on {
                    on = on + 1;
                } else {
                    off = off + 1;
                }
            },
            Some(ProbeStatus::Offline) => {
                offline = offline + 1;
            },
            _ => {},
        }
        index = index + 1;
    }
    let unknown: usize = total - online - offline;
    let availability = if total == 0 || unknown == total {
        "unknown"
    } else if online == total {
        "online"
    } else if online > 0 {
        "partial"
    } else if offline > 0 && unknown == 0 {
        "offline"
    } else {
        "unknown"
    };
    let (relay, observed_at) = if online == total && on == total {
        ("on", Some(now))
    } else if online == total && off == total {
        ("off", Some(now))
    } else if on > 0 && off > 0 {
        ("mixed", Some(now))
    } else {
        ("unknown", None)
    };
    InventoryGroup {
        id: decimal_text(group.id),
        name: group.name,
        member_ids: group.device_ids,
        capabilities: Capabilities { relay: true, brightness: false },
        availability,
        members: MemberCounts { total, online, offline, unknown },
        state: GroupState { relay, observed_at },
    }
}

proof fn lemma_tally_bounds(members: Seq<Seq<char>>, statuses: Seq<DeviceStatus>, count: int)
    requires
        0 <= count <= members.len(),
    ensures
        ({
            let (online, on, off, offline) = tally(members, statuses, count);
            &&& 0 <= on <= count
            &&& 0 <= off <= count
            &&& on + off == online
            &&& 0 <= offline
            &&& online + offline <= count
        }),
    decreases count,
{
    if count > 0 {
        lemma_tally_bounds(members, statuses, count - 1);
    }
}

proof fn lemma_full_tally(
    members: Seq<Seq<char>>,
    statuses: Seq<DeviceStatus>,
    count: int,
    member: int,
)
    requires
        0 <= member < count <= members.len(),
    ensures
        tally(members, statuses, count).1 == count ==> is_in_state(statuses, members[member], true),
        tally(members, statuses, count).2 == count ==> is_in_state(
            statuses,
            members[member],
            false,
        ),
    decreases count,
{
    lemma_tally_bounds(members, statuses, count - 1);
    if member < count - 1 {
        lemma_full_tally(members, statuses, count - 1, member);
    }
}

/// A group is said to be on, or off, only where every member was just seen to be.
pub proof fn law_group_state_is_complete(
    entry: InventoryGroup,
    group: DeviceGroup,
    statuses: Seq<DeviceStatus>,
    now: i64,
    on: bool,
    member: int,
)
    requires
        lists_group(entry, group, statuses, now),
        entry.state.relay@ == crate::report::relay_name(on),
        0 <= member < group.device_ids@.len(),
    ensures
        is_in_state(statuses, group.device_ids@[member]@, on),
        entry.state.observed_at == Some(now),
{
    reveal_strlit("on");
    reveal_strlit("off");
    reveal_strlit("mixed");
    reveal_strlit("unknown");
    assert("on"@.len() == 2 && "off"@.len() == 3 && "mixed"@.len() == 5 && "unknown"@.len() == 7);
    let members = crate::text::texts(group.device_ids@);
    lemma_full_tally(members, statuses, members.len() as int, member);
    assert(members[member] == group.device_ids@[member]@);
}

/// Whether there is more than an inventory may hold.
pub open spec fn exceeds_limits(stored: int, groups: Seq<DeviceGroup>) -> bool {
    ||| stored > MAX_DEVICES
    ||| groups.len() > MAX_INVENTORY_GROUPS
    ||| exists|i: int|
        0 <= i < groups.len() && (#[trigger] groups[i]).device_ids@.len() > MAX_GROUP_MEMBERS
}

/// Refuses an inventory of more than it may hold.
pub fn require_limits(stored: &Vec<StoredDevice>, groups: &Vec<DeviceGroup>, request_id: &str) -> (
    result: Result<(), ApiError>)
    ensures
        if exceeds_limits(stored@.len() as int, groups@) {
            result is Err && crate::api::bare(result->Err_0) && crate::api::not_started(
                result->Err_0,
                request_id@,
                422,
                "inventory_too_large"@,
                "The inventory exceeds the API item limits."@,
            )
        } else {
            result is Ok
        },
{
    let mut crowded = stored.len() > MAX_DEVICES || groups.len() > MAX_INVENTORY_GROUPS;
    let mut index: usize = 0;
    while index < groups.len()
        invariant
            index <= groups@.len(),
            crowded == (stored@.len() > MAX_DEVICES || groups@.len() > MAX_INVENTORY_GROUPS
                || exists|i: int|
                0 <= i < index && (#[trigger] groups@[i]).device_ids@.len() > MAX_GROUP_MEMBERS),
        decreases groups@.len() - index,
    {
        if groups[index].device_ids.len() > MAX_GROUP_MEMBERS {
            proof {
                assert(groups@[index as int].device_ids@.len() > MAX_GROUP_MEMBERS);
            }
            crowded = true;
        }
        index = index + 1;
    }
    if crowded {
        return Err(
            ApiError::new(
                request_id,
                422,
                "inventory_too_large",
                "The inventory exceeds the API item limits.",
                false,
            ),
        );
    }
    Ok(())
}

/// Refuses an inventory of more bytes than it may have.
pub fn require_inventory_size(length: usize, request_id: &str) -> (result: Result<(), ApiError>)
    ensures
        if length > MAX_INVENTORY_BYTES {
            result is Err && crate::api::bare(result->Err_0) && crate::api::not_started(
                result->Err_0,
                request_id@,
                422,
                "inventory_too_large"@,
                "The inventory exceeds the API size limit."@,
            )
        } else {
            result is Ok
        },
{
    if length > MAX_INVENTORY_BYTES {
        return Err(
            ApiError::new(
                request_id,
                422,
                "inventory_too_large",
                "The inventory exceeds the API size limit.",
                false,
            ),
        );
    }
    Ok(())
}

/// The inventory.
#[derive(Debug)]
pub struct Inventory {
    pub generated_at: i64,
    pub devices: Vec<InventoryDevice>,
    pub groups: Vec<InventoryGroup>,
}

/// The inventory of remembered devices and groups.
pub fn build_inventory(
    stored: &Vec<StoredDevice>,
    groups: Vec<DeviceGroup>,
    statuses: &Vec<DeviceStatus>,
    generated_at: i64,
) -> (inventory: Inventory)
    ensures
        inventory.generated_at == generated_at,
        inventory.devices@.len() == stored@.len(),
        forall|i: int|
            0 <= i < stored@.len() ==> lists_device(
                #[trigger] inventory.devices@[i],
                stored@[i],
                status_of(statuses@, stored@[i].device.device_id@),
                generated_at,
            ),
        inventory.groups@.len() == groups@.len(),
        forall|i: int|
            0 <= i < groups@.len() ==> lists_group(
                #[trigger] inventory.groups@[i],
                groups@[i],
                statuses@,
                generated_at,
            ),
{
    let mut devices: Vec<InventoryDevice> = Vec::new();
    let mut index: usize = 0;
    while index < stored.len()
        invariant
            index <= stored@.len(),
            devices@.len() == index,
            forall|i: int|
                0 <= i < index ==> lists_device(
                    #[trigger] devices@[i],
                    stored@[i],
                    status_of(statuses@, stored@[i].device.device_id@),
                    generated_at,
                ),
        decreases stored@.len() - index,
    {
        let status = find_status(statuses, stored[index].device.device_id.as_str());
        devices.push(inventory_device(&stored[index], status, generated_at));
        index = index + 1;
    }
    let mut left = groups;
    let ghost all = left@;
    let mut entries: Vec<InventoryGroup> = Vec::new();
    while left.len() > 0
        invariant
            all == groups@,
            entries@.len() + left@.len() == all.len(),
            left@ == all.skip(entries@.len() as int),
            forall|i: int|
                0 <= i < entries@.len() ==> lists_group(
                    #[trigger] entries@[i],
                    all[i],
                    statuses@,
                    generated_at,
                ),
        decreases left@.len(),
    {
        let group = left.remove(0);
        proof {
            assert(group == all[entries@.len() as int]);
        }
        entries.push(inventory_group(group, statuses, generated_at));
    }
    Inventory { generated_at, devices, groups: entries }
}

/// A list of texts as a document.
pub open spec fn texts_tree(parts: Seq<String>) -> Tree {
    Tree::Array(parts.map_values(|part: String| Tree::Text(part@)))
}

fn texts_json(parts: &Vec<String>) -> (document: Json)
    ensures
        document.tree() == texts_tree(parts@),
{
    let mut items: Vec<Json> = Vec::new();
    let mut index: usize = 0;
    while index < parts.len()
        invariant
            index <= parts@.len(),
            items@.len() == index,
            forall|i: int|
                0 <= i < index ==> (#[trigger] items@[i]).tree() == Tree::Text(parts@[i]@),
        decreases parts@.len() - index,
    {
        items.push(Json::text(parts[index].as_str()));
        index = index + 1;
    }
    let document = Json::Array(items);
    proof {
        assert(document.tree()->Array_0 =~= parts@.map_values(|part: String| Tree::Text(part@)));
    }
    document
}

/// What can be done, as a document.
pub open spec fn capabilities_tree(capabilities: Capabilities) -> Tree {
    Tree::Object(
        seq![
            ("relay"@, Tree::Bool(capabilities.relay)),
            ("brightness"@, Tree::Bool(capabilities.brightness)),
        ],
    )
}

fn capabilities_json(capabilities: Capabilities) -> (document: Json)
    ensures
        document.tree() == capabilities_tree(capabilities),
{
    let document = Json::empty().with("relay", Json::Bool(capabilities.relay)).with(
        "brightness",
        Json::Bool(capabilities.brightness),
    );
    proof {
        assert(document.tree()->Object_0 =~= capabilities_tree(capabilities)->Object_0);
    }
    document
}

/// A device of the inventory, as a document.
pub open spec fn device_tree(device: InventoryDevice) -> Tree {
    Tree::Object(
        seq![
            ("id"@, Tree::Text(device.id@)),
            ("name"@, Tree::Text(device.name@)),
            ("capabilities"@, capabilities_tree(device.capabilities)),
            ("availability"@, Tree::Text(device.availability@)),
            ("last_seen_at"@, crate::json::integer(device.last_seen_at as int)),
            (
                "state"@,
                Tree::Object(
                    seq![
                        ("relay"@, Tree::Text(device.state.relay@)),
                        ("brightness"@, crate::report::brightness_tree(device.state.brightness)),
                        ("observed_at"@, crate::json::integer(device.state.observed_at as int)),
                    ],
                ),
            ),
        ],
    )
}

fn device_json(device: &InventoryDevice) -> (document: Json)
    ensures
        document.tree() == device_tree(*device),
{
    let brightness = match device.state.brightness {
        Some(value) => Json::unsigned(value as u64),
        None => Json::Null,
    };
    let state = Json::empty().with("relay", Json::text(device.state.relay)).with(
        "brightness",
        brightness,
    ).with("observed_at", Json::signed(device.state.observed_at));
    let document = Json::empty().with("id", Json::text(device.id.as_str())).with(
        "name",
        Json::text(device.name.as_str()),
    ).with("capabilities", capabilities_json(device.capabilities)).with(
        "availability",
        Json::text(device.availability),
    ).with("last_seen_at", Json::signed(device.last_seen_at)).with("state", state);
    proof {
        assert(state.tree()->Object_0 =~= device_tree(*device)->Object_0[5].1->Object_0);
        assert(document.tree()->Object_0 =~= device_tree(*device)->Object_0);
    }
    document
}

/// A group of the inventory, as a document.
pub open spec fn group_tree(group: InventoryGroup) -> Tree {
    Tree::Object(
        seq![
            ("id"@, Tree::Text(group.id@)),
            ("name"@, Tree::Text(group.name@)),
            ("member_ids"@, texts_tree(group.member_ids@)),
            ("capabilities"@, capabilities_tree(group.capabilities)),
            ("availability"@, Tree::Text(group.availability@)),
            (
                "members"@,
                Tree::Object(
                    seq![
                        ("total"@, crate::json::natural(group.members.total as int)),
                        ("online"@, crate::json::natural(group.members.online as int)),
                        ("offline"@, crate::json::natural(group.members.offline as int)),
                        ("unknown"@, crate::json::natural(group.members.unknown as int)),
                    ],
                ),
            ),
            (
                "state"@,
                Tree::Object(
                    seq![
                        ("relay"@, Tree::Text(group.state.relay@)),
                        (
                            "observed_at"@,
                            match group.state.observed_at {
                                Some(time) => crate::json::integer(time as int),
                                None => Tree::Null,
                            },
                        ),
                    ],
                ),
            ),
        ],
    )
}

fn group_json(group: &InventoryGroup) -> (document: Json)
    ensures
        document.tree() == group_tree(*group),
{
    let members = Json::empty().with("total", Json::unsigned(group.members.total as u64)).with(
        "online",
        Json::unsigned(group.members.online as u64),
    ).with("offline", Json::unsigned(group.members.offline as u64)).with(
        "unknown",
        Json::unsigned(group.members.unknown as u64),
    );
    let observed_at = match group.state.observed_at {
        Some(time) => Json::signed(time),
        None => Json::Null,
    };
    let state = Json::empty().with("relay", Json::text(group.state.relay)).with(
        "observed_at",
        observed_at,
    );
    let document = Json::empty().with("id", Json::text(group.id.as_str())).with(
        "name",
        Json::text(group.name.as_str()),
    ).with("member_ids", texts_json(&group.member_ids)).with(
        "capabilities",
        capabilities_json(group.capabilities),
    ).with("availability", Json::text(group.availability)).with("members", members).with(
        "state",
        state,
    );
    proof {
        assert(members.tree()->Object_0 =~= group_tree(*group)->Object_0[5].1->Object_0);
        assert(state.tree()->Object_0 =~= group_tree(*group)->Object_0[6].1->Object_0);
        assert(document.tree()->Object_0 =~= group_tree(*group)->Object_0);
    }
    document
}

/// An inventory, as a document.
pub open spec fn inventory_tree(inventory: Inventory) -> Tree {
    Tree::Object(
        seq![
            ("api_version"@, crate::json::natural(1)),
            ("generated_at"@, crate::json::integer(inventory.generated_at as int)),
            ("refresh_complete"@, Tree::Bool(true)),
            (
                "devices"@,
                Tree::Array(
                    inventory.devices@.map_values(|device: InventoryDevice| device_tree(device)),
                ),
            ),
            (
                "groups"@,
                Tree::Array(
                    inventory.groups@.map_values(|group: InventoryGroup| group_tree(group)),
                ),
            ),
        ],
    )
}

impl Inventory {
    /// This inventory as a document, its members in the order in which they are sent.
    pub fn document(&self) -> (document: Json)
        ensures
            document.tree() == inventory_tree(*self),
    {
        let mut devices: Vec<Json> = Vec::new();
        let mut index: usize = 0;
        while index < self.devices.len()
            invariant
                index <= self.devices@.len(),
                devices@.len() == index,
                forall|i: int|
                    0 <= i < index ==> (#[trigger] devices@[i]).tree() == device_tree(
                        self.devices@[i],
                    ),
            decreases self.devices@.len() - index,
        {
            devices.push(device_json(&self.devices[index]));
            index = index + 1;
        }
        let mut groups: Vec<Json> = Vec::new();
        let mut next: usize = 0;
        while next < self.groups.len()
            invariant
                next <= self.groups@.len(),
                groups@.len() == next,
                forall|i: int|
                    0 <= i < next ==> (#[trigger] groups@[i]).tree() == group_tree(self.groups@[i]),
            decreases self.groups@.len() - next,
        {
            groups.push(group_json(&self.groups[next]));
            next = next + 1;
        }
        let device_list = Json::Array(devices);
        let group_list = Json::Array(groups);
        proof {
            assert(device_list.tree()->Array_0 =~= self.devices@.map_values(
                |device: InventoryDevice| device_tree(device),
            ));
            assert(group_list.tree()->Array_0 =~= self.groups@.map_values(
                |group: InventoryGroup| group_tree(group),
            ));
        }
        let document = Json::empty().with("api_version", Json::unsigned(1)).with(
            "generated_at",
            Json::signed(self.generated_at),
        ).with("refresh_complete", Json::Bool(true)).with("devices", device_list).with(
            "groups",
            group_list,
        );
        proof {
            assert(document.tree()->Object_0 =~= inventory_tree(*self)->Object_0);
        }
        document
    }
}

/// A device is shown as the probe of its remembered address found it. Where it answered, it is
/// online, in the state that it said, seen now. Where nothing answered it is offline, and where
/// something else did it is unknown: then it is shown as it was when it was last seen.
pub proof fn law_devices_are_shown_as_probed(
    remembered: StoredDevice,
    probe: Option<SmartPlug>,
    now: i64,
    entry: InventoryDevice,
)
    requires
        lists_device(
            entry,
            remembered,
            Some(status_after(remembered.device.device_id@, probe)),
            now,
        ),
    ensures
        entry.id@ == remembered.device.device_id@,
        entry.capabilities.relay,
        ({
            let itself = probe is Some && probe->0.device_id@ == remembered.device.device_id@;
            let seen = if itself {
                probe->0
            } else {
                remembered.device
            };
            &&& entry.availability@ == (if itself {
                "online"@
            } else if probe is None {
                "offline"@
            } else {
                "unknown"@
            })
            &&& entry.name@ == seen.alias@
            &&& entry.state.relay@ == (if seen.relay_on {
                "on"@
            } else {
                "off"@
            })
            &&& entry.state.brightness == seen.brightness
            &&& entry.capabilities.brightness <==> seen.brightness is Some
            &&& entry.state.observed_at == (if itself {
                now
            } else {
                remembered.last_seen_at
            })
            &&& entry.last_seen_at == entry.state.observed_at
        }),
{
}

/// What was seen of a device is the last sight of it.
pub proof fn law_last_sight_counts(statuses: Seq<DeviceStatus>, device_id: Seq<char>, last: int)
    requires
        -1 <= last < statuses.len(),
        last >= 0 ==> statuses[last].device_id@ == device_id,
        forall|i: int|
            last < i < statuses.len() ==> (#[trigger] statuses[i]).device_id@ != device_id,
    ensures
        status_of(statuses, device_id) == (if last >= 0 {
            Some(statuses[last].status)
        } else {
            None
        }),
    decreases statuses.len(),
{
    if last < statuses.len() - 1 {
        let front = statuses.drop_last();
        assert(statuses[statuses.len() - 1].device_id@ != device_id);
        assert forall|i: int| last < i < front.len() implies (#[trigger] front[i]).device_id@
            != device_id by {
            assert(statuses[i].device_id@ != device_id);
        }
        law_last_sight_counts(front, device_id, last);
    }
}

proof fn lemma_tally(members: Seq<Seq<char>>, statuses: Seq<DeviceStatus>, count: int)
    requires
        0 <= count <= members.len(),
    ensures
        ({
            let (online, on, off, offline) = tally(members, statuses, count);
            &&& 0 <= online && 0 <= on && 0 <= off && 0 <= offline
            &&& on + off == online
            &&& online + offline <= count
            &&& online > 0 <==> exists|m: int|
                0 <= m < count && is_online(statuses, #[trigger] members[m])
            &&& online == count <==> forall|m: int|
                0 <= m < count ==> is_online(statuses, #[trigger] members[m])
            &&& offline == count <==> forall|m: int|
                0 <= m < count ==> is_offline(statuses, #[trigger] members[m])
            &&& on > 0 <==> exists|m: int|
                0 <= m < count && is_in_state(statuses, #[trigger] members[m], true)
            &&& off > 0 <==> exists|m: int|
                0 <= m < count && is_in_state(statuses, #[trigger] members[m], false)
            &&& on == count <==> forall|m: int|
                0 <= m < count ==> is_in_state(statuses, #[trigger] members[m], true)
            &&& off == count <==> forall|m: int|
                0 <= m < count ==> is_in_state(statuses, #[trigger] members[m], false)
        }),
    decreases count,
{
    if count > 0 {
        lemma_tally(members, statuses, count - 1);
        let (online, on, off, offline) = tally(members, statuses, count);
        let (online_before, on_before, off_before, offline_before) = tally(
            members,
            statuses,
            count - 1,
        );
        let member = members[count - 1];
        if online_before == 0 && online > 0 {
            assert(is_online(statuses, member));
        }
        if on_before == 0 && on > 0 {
            assert(is_in_state(statuses, member, true));
        }
        if off_before == 0 && off > 0 {
            assert(is_in_state(statuses, member, false));
        }
        if online == count {
            assert(online_before == count - 1 && is_online(statuses, member));
        }
        if offline == count {
            assert(offline_before == count - 1 && is_offline(statuses, member));
        }
        if on == count {
            assert(on_before == count - 1 && is_in_state(statuses, member, true));
        }
        if off == count {
            assert(off_before == count - 1 && is_in_state(statuses, member, false));
        }
        if forall|m: int| 0 <= m < count ==> is_online(statuses, #[trigger] members[m]) {
            assert(is_online(statuses, member));
        }
        if forall|m: int| 0 <= m < count ==> is_offline(statuses, #[trigger] members[m]) {
            assert(is_offline(statuses, member));
        }
        if forall|m: int| 0 <= m < count ==> is_in_state(statuses, #[trigger] members[m], true) {
            assert(is_in_state(statuses, member, true));
        }
        if forall|m: int| 0 <= m < count ==> is_in_state(statuses, #[trigger] members[m], false) {
            assert(is_in_state(statuses, member, false));
        }
    }
}

/// Whether the last sight of a device found it in a state.
pub open spec fn last_seen(statuses: Seq<DeviceStatus>, device_id: Seq<char>, on: bool) -> bool {
    exists|k: int|
        0 <= k < statuses.len() && (#[trigger] statuses[k]).device_id@ == device_id && (forall|
            i: int,
        |
            k < i < statuses.len() ==> (#[trigger] statuses[i]).device_id@ != device_id)
            && statuses[k].status is Online && statuses[k].status->Online_0.relay_on == on
}

/// Whether nothing answered at the last sight of a device.
pub open spec fn last_silent(statuses: Seq<DeviceStatus>, device_id: Seq<char>) -> bool {
    exists|k: int|
        0 <= k < statuses.len() && (#[trigger] statuses[k]).device_id@ == device_id && (forall|
            i: int,
        |
            k < i < statuses.len() ==> (#[trigger] statuses[i]).device_id@ != device_id)
            && statuses[k].status is Offline
}

proof fn lemma_last_sight(statuses: Seq<DeviceStatus>, device_id: Seq<char>) -> (last: int)
    ensures
        -1 <= last < statuses.len(),
        last >= 0 ==> statuses[last].device_id@ == device_id,
        forall|i: int|
            last < i < statuses.len() ==> (#[trigger] statuses[i]).device_id@ != device_id,
    decreases statuses.len(),
{
    if statuses.len() == 0 {
        -1
    } else if statuses.last().device_id@ == device_id {
        statuses.len() - 1
    } else {
        let front = statuses.drop_last();
        let last = lemma_last_sight(front, device_id);
        assert forall|i: int| last < i < statuses.len() implies (#[trigger] statuses[i]).device_id@
            != device_id by {
            if i < front.len() {
                assert(front[i].device_id@ != device_id);
            }
        }
        last
    }
}

proof fn lemma_sights(statuses: Seq<DeviceStatus>, device_id: Seq<char>, on: bool)
    ensures
        is_in_state(statuses, device_id, on) <==> last_seen(statuses, device_id, on),
        is_online(statuses, device_id) <==> last_seen(statuses, device_id, true) || last_seen(
            statuses,
            device_id,
            false,
        ),
        is_offline(statuses, device_id) <==> last_silent(statuses, device_id),
{
    let last = lemma_last_sight(statuses, device_id);
    law_last_sight_counts(statuses, device_id, last);
    if last >= 0 {
        assert(statuses[last].device_id@ == device_id);
    }
}

/// A group with members is online where all of them were just seen, partly so where some were and
/// some were not, and offline where none answered; else it is unknown how far it can be reached.
/// Its relays are on, or off, where all of them were seen to be, and mixed where some were seen on
/// and some off; else their state is unknown.
pub proof fn law_groups_are_shown_as_probed(
    entry: InventoryGroup,
    group: DeviceGroup,
    statuses: Seq<DeviceStatus>,
    now: i64,
)
    requires
        lists_group(entry, group, statuses, now),
        group.device_ids@.len() > 0,
    ensures
        ({
            let count = group.device_ids@.len();
            let all_seen = forall|m: int|
                0 <= m < count ==> last_seen(statuses, (#[trigger] group.device_ids@[m])@, true)
                    || last_seen(statuses, group.device_ids@[m]@, false);
            let some_on = exists|m: int|
                0 <= m < count && last_seen(statuses, (#[trigger] group.device_ids@[m])@, true);
            let some_off = exists|m: int|
                0 <= m < count && last_seen(statuses, (#[trigger] group.device_ids@[m])@, false);
            let all_silent = forall|m: int|
                0 <= m < count ==> last_silent(statuses, (#[trigger] group.device_ids@[m])@);
            let all_on = forall|m: int|
                0 <= m < count ==> last_seen(statuses, (#[trigger] group.device_ids@[m])@, true);
            let all_off = forall|m: int|
                0 <= m < count ==> last_seen(statuses, (#[trigger] group.device_ids@[m])@, false);
            &&& entry.availability@ == (if all_seen {
                "online"@
            } else if some_on || some_off {
                "partial"@
            } else if all_silent {
                "offline"@
            } else {
                "unknown"@
            })
            &&& entry.state.relay@ == (if all_on {
                "on"@
            } else if all_off {
                "off"@
            } else if some_on && some_off {
                "mixed"@
            } else {
                "unknown"@
            })
            &&& entry.state.observed_at is Some <==> all_on || all_off || (some_on && some_off)
        }),
{
    let members = crate::text::texts(group.device_ids@);
    let count = members.len() as int;
    lemma_tally(members, statuses, count);
    assert forall|m: int| 0 <= m < count implies (#[trigger] group.device_ids@[m])@
        == members[m] by {}
    assert forall|m: int| 0 <= m < count implies {
        &&& is_in_state(statuses, #[trigger] members[m], true) <==> last_seen(
            statuses,
            group.device_ids@[m]@,
            true,
        )
        &&& is_in_state(statuses, members[m], false) <==> last_seen(
            statuses,
            group.device_ids@[m]@,
            false,
        )
        &&& is_online(statuses, members[m]) <==> last_seen(
            statuses,
            group.device_ids@[m]@,
            true,
        ) || last_seen(statuses, group.device_ids@[m]@, false)
        &&& is_offline(statuses, members[m]) <==> last_silent(statuses, group.device_ids@[m]@)
    } by {
        assert(members[m] == group.device_ids@[m]@);
        lemma_sights(statuses, members[m], true);
        lemma_sights(statuses, members[m], false);
    }
    let all_seen = forall|m: int|
        0 <= m < count ==> last_seen(statuses, (#[trigger] group.device_ids@[m])@, true)
            || last_seen(statuses, group.device_ids@[m]@, false);
    let all_silent = forall|m: int|
        0 <= m < count ==> last_silent(statuses, (#[trigger] group.device_ids@[m])@);
    let all_on = forall|m: int|
        0 <= m < count ==> last_seen(statuses, (#[trigger] group.device_ids@[m])@, true);
    let all_off = forall|m: int|
        0 <= m < count ==> last_seen(statuses, (#[trigger] group.device_ids@[m])@, false);
    let (online, on, off, offline) = tally(members, statuses, count);
    if all_seen {
        assert forall|m: int| 0 <= m < count implies is_online(statuses, #[trigger] members[m]) by {
            let id = group.device_ids@[m]@;
        }
    }
    if online == count {
        assert forall|m: int| 0 <= m < count implies last_seen(
            statuses,
            (#[trigger] group.device_ids@[m])@,
            true,
        ) || last_seen(statuses, group.device_ids@[m]@, false) by {
            assert(is_online(statuses, members[m]));
        }
    }
    if all_silent {
        assert forall|m: int| 0 <= m < count implies is_offline(statuses, #[trigger] members[m]) by {
            let id = group.device_ids@[m]@;
        }
    }
    if offline == count {
        assert forall|m: int| 0 <= m < count implies last_silent(
            statuses,
            (#[trigger] group.device_ids@[m])@,
        ) by {
            assert(is_offline(statuses, members[m]));
        }
    }
    if all_on {
        assert forall|m: int| 0 <= m < count implies is_in_state(
            statuses,
            #[trigger] members[m],
            true,
        ) by {
            let id = group.device_ids@[m]@;
        }
    }
    if on == count {
        assert forall|m: int| 0 <= m < count implies last_seen(
            statuses,
            (#[trigger] group.device_ids@[m])@,
            true,
        ) by {
            assert(is_in_state(statuses, members[m], true));
        }
    }
    if all_off {
        assert forall|m: int| 0 <= m < count implies is_in_state(
            statuses,
            #[trigger] members[m],
            false,
        ) by {
            let id = group.device_ids@[m]@;
        }
    }
    if off == count {
        assert forall|m: int| 0 <= m < count implies last_seen(
            statuses,
            (#[trigger] group.device_ids@[m])@,
            false,
        ) by {
            assert(is_in_state(statuses, members[m], false));
        }
    }
    if on > 0 {
        let m = choose|m: int|
            0 <= m < count && is_in_state(statuses, #[trigger] members[m], true);
        assert(last_seen(statuses, group.device_ids@[m]@, true));
    }
    if off > 0 {
        let m = choose|m: int|
            0 <= m < count && is_in_state(statuses, #[trigger] members[m], false);
        assert(last_seen(statuses, group.device_ids@[m]@, false));
    }
    if exists|m: int|
        0 <= m < count && last_seen(statuses, (#[trigger] group.device_ids@[m])@, true) {
        let m = choose|m: int|
            0 <= m < count && last_seen(statuses, (#[trigger] group.device_ids@[m])@, true);
        assert(is_in_state(statuses, members[m], true));
    }
    if exists|m: int|
        0 <= m < count && last_seen(statuses, (#[trigger] group.device_ids@[m])@, false) {
        let m = choose|m: int|
            0 <= m < count && last_seen(statuses, (#[trigger] group.device_ids@[m])@, false);
        assert(is_in_state(statuses, members[m], false));
    }
}

/// An inventory is refused exactly where it holds more than two hundred and fifty-six devices,
/// fifty groups, or two hundred and fifty-six members of a group.
pub proof fn law_inventory_limits(stored: int, groups: Seq<DeviceGroup>)
    ensures
        exceeds_limits(stored, groups) <==> stored > 256 || groups.len() > 50 || exists|i: int|
            0 <= i < groups.len() && (#[trigger] groups[i]).device_ids@.len() > 256,
{
}

proof fn lemma_device_words()
    ensures
        "id"@ != "name"@,
        "id"@ != "capabilities"@,
        "id"@ != "availability"@,
        "id"@ != "last_seen_at"@,
        "id"@ != "state"@,
        "name"@ != "capabilities"@,
        "name"@ != "availability"@,
        "name"@ != "last_seen_at"@,
        "name"@ != "state"@,
        "capabilities"@ != "availability"@,
        "capabilities"@ != "last_seen_at"@,
        "capabilities"@ != "state"@,
        "availability"@ != "last_seen_at"@,
        "availability"@ != "state"@,
        "last_seen_at"@ != "state"@,
{
    reveal_strlit("id");
    reveal_strlit("name");
    reveal_strlit("capabilities");
    reveal_strlit("availability");
    reveal_strlit("last_seen_at");
    reveal_strlit("state");
    assert("id"@.len() == 2 && "id"@[0] == 'i' && "id"@[1] == 'd');
    assert("name"@.len() == 4 && "name"@[0] == 'n' && "name"@[1] == 'a' && "name"@[2] == 'm');
    assert("capabilities"@.len() == 12 && "capabilities"@[0] == 'c' && "capabilities"@[1] == 'a' && "capabilities"@[2] == 'p');
    assert("availability"@.len() == 12 && "availability"@[0] == 'a' && "availability"@[1] == 'v' && "availability"@[2] == 'a');
    assert("last_seen_at"@.len() == 12 && "last_seen_at"@[0] == 'l' && "last_seen_at"@[1] == 'a' && "last_seen_at"@[2] == 's');
    assert("state"@.len() == 5 && "state"@[0] == 's' && "state"@[1] == 't' && "state"@[2] == 'a');
}

proof fn lemma_member_words()
    ensures
        "total"@ != "online"@,
        "total"@ != "offline"@,
        "total"@ != "unknown"@,
        "online"@ != "offline"@,
        "online"@ != "unknown"@,
        "offline"@ != "unknown"@,
{
    reveal_strlit("total");
    reveal_strlit("online");
    reveal_strlit("offline");
    reveal_strlit("unknown");
    assert("total"@.len() == 5 && "total"@[0] == 't' && "total"@[1] == 'o' && "total"@[2] == 't');
    assert("online"@.len() == 6 && "online"@[0] == 'o' && "online"@[1] == 'n' && "online"@[2] == 'l');
    assert("offline"@.len() == 7 && "offline"@[0] == 'o' && "offline"@[1] == 'f' && "offline"@[2] == 'f');
    assert("unknown"@.len() == 7 && "unknown"@[0] == 'u' && "unknown"@[1] == 'n' && "unknown"@[2] == 'k');
}

proof fn lemma_group_words()
    ensures
        "id"@ != "name"@,
        "id"@ != "member_ids"@,
        "id"@ != "capabilities"@,
        "id"@ != "availability"@,
        "id"@ != "members"@,
        "id"@ != "state"@,
        "name"@ != "member_ids"@,
        "name"@ != "capabilities"@,
        "name"@ != "availability"@,
        "name"@ != "members"@,
        "name"@ != "state"@,
        "member_ids"@ != "capabilities"@,
        "member_ids"@ != "availability"@,
        "member_ids"@ != "members"@,
        "member_ids"@ != "state"@,
        "capabilities"@ != "availability"@,
        "capabilities"@ != "members"@,
        "capabilities"@ != "state"@,
        "availability"@ != "members"@,
        "availability"@ != "state"@,
        "members"@ != "state"@,
{
    reveal_strlit("id");
    reveal_strlit("name");
    reveal_strlit("member_ids");
    reveal_strlit("capabilities");
    reveal_strlit("availability");
    reveal_strlit("members");
    reveal_strlit("state");
    assert("id"@.len() == 2 && "id"@[0] == 'i' && "id"@[1] == 'd');
    assert("name"@.len() == 4 && "name"@[0] == 'n' && "name"@[1] == 'a' && "name"@[2] == 'm');
    assert("member_ids"@.len() == 10 && "member_ids"@[0] == 'm' && "member_ids"@[1] == 'e' && "member_ids"@[2] == 'm');
    assert("capabilities"@.len() == 12 && "capabilities"@[0] == 'c' && "capabilities"@[1] == 'a' && "capabilities"@[2] == 'p');
    assert("availability"@.len() == 12 && "availability"@[0] == 'a' && "availability"@[1] == 'v' && "availability"@[2] == 'a');
    assert("members"@.len() == 7 && "members"@[0] == 'm' && "members"@[1] == 'e' && "members"@[2] == 'm');
    assert("state"@.len() == 5 && "state"@[0] == 's' && "state"@[1] == 't' && "state"@[2] == 'a');
}

proof fn lemma_seen_words()
    ensures
        "relay"@ != "brightness"@,
        "relay"@ != "observed_at"@,
        "brightness"@ != "observed_at"@,
{
    reveal_strlit("relay");
    reveal_strlit("brightness");
    reveal_strlit("observed_at");
    assert("relay"@.len() == 5 && "relay"@[0] == 'r' && "relay"@[1] == 'e' && "relay"@[2] == 'l');
    assert("brightness"@.len() == 10 && "brightness"@[0] == 'b' && "brightness"@[1] == 'r' && "brightness"@[2] == 'i');
    assert("observed_at"@.len() == 11 && "observed_at"@[0] == 'o' && "observed_at"@[1] == 'b' && "observed_at"@[2] == 's');
}

/// The document of a device gives each thing under its own name.
pub proof fn law_device_documents(device: InventoryDevice)
    ensures
        ({
            let document = device_tree(device);
            let state = crate::json::tree_member(document, "state"@);
            let able = crate::json::tree_member(document, "capabilities"@);
            &&& crate::json::tree_member(document, "id"@) == Some(Tree::Text(device.id@))
            &&& crate::json::tree_member(document, "name"@) == Some(Tree::Text(device.name@))
            &&& crate::json::tree_member(document, "availability"@) == Some(
                Tree::Text(device.availability@),
            )
            &&& crate::json::tree_member(document, "last_seen_at"@) == Some(
                crate::json::integer(device.last_seen_at as int),
            )
            &&& able is Some && crate::json::tree_member(able->0, "relay"@) == Some(
                Tree::Bool(device.capabilities.relay),
            ) && crate::json::tree_member(able->0, "brightness"@) == Some(
                Tree::Bool(device.capabilities.brightness),
            )
            &&& state is Some && crate::json::tree_member(state->0, "relay"@) == Some(
                Tree::Text(device.state.relay@),
            ) && crate::json::tree_member(state->0, "observed_at"@) == Some(
                crate::json::integer(device.state.observed_at as int),
            )
            &&& device.state.brightness is Some ==> crate::json::tree_member(
                state->0,
                "brightness"@,
            ) == Some(crate::json::natural(device.state.brightness->0 as int))
            &&& device.state.brightness is None ==> crate::json::tree_member(
                state->0,
                "brightness"@,
            ) == Some(Tree::Null)
        }),
{
    lemma_device_words();
    lemma_seen_words();
    let members = device_tree(device)->Object_0;
    crate::json::law_members_are_found(members, "id"@, 0);
    crate::json::law_members_are_found(members, "name"@, 1);
    crate::json::law_members_are_found(members, "capabilities"@, 2);
    crate::json::law_members_are_found(members, "availability"@, 3);
    crate::json::law_members_are_found(members, "last_seen_at"@, 4);
    crate::json::law_members_are_found(members, "state"@, 5);
    let able = capabilities_tree(device.capabilities)->Object_0;
    crate::json::law_members_are_found(able, "relay"@, 0);
    crate::json::law_members_are_found(able, "brightness"@, 1);
    let state = members[5].1->Object_0;
    crate::json::law_members_are_found(state, "relay"@, 0);
    crate::json::law_members_are_found(state, "brightness"@, 1);
    crate::json::law_members_are_found(state, "observed_at"@, 2);
}

/// The document of a group gives each thing under its own name, the numbers of its members by what
/// was seen of them.
pub proof fn law_group_documents(group: InventoryGroup)
    ensures
        ({
            let document = group_tree(group);
            let state = crate::json::tree_member(document, "state"@);
            let counts = crate::json::tree_member(document, "members"@);
            &&& crate::json::tree_member(document, "id"@) == Some(Tree::Text(group.id@))
            &&& crate::json::tree_member(document, "name"@) == Some(Tree::Text(group.name@))
            &&& crate::json::tree_member(document, "availability"@) == Some(
                Tree::Text(group.availability@),
            )
            &&& counts is Some && crate::json::tree_member(counts->0, "total"@) == Some(
                crate::json::natural(group.members.total as int),
            ) && crate::json::tree_member(counts->0, "online"@) == Some(
                crate::json::natural(group.members.online as int),
            ) && crate::json::tree_member(counts->0, "offline"@) == Some(
                crate::json::natural(group.members.offline as int),
            ) && crate::json::tree_member(counts->0, "unknown"@) == Some(
                crate::json::natural(group.members.unknown as int),
            )
            &&& state is Some && crate::json::tree_member(state->0, "relay"@) == Some(
                Tree::Text(group.state.relay@),
            )
            &&& group.state.observed_at is Some ==> crate::json::tree_member(
                state->0,
                "observed_at"@,
            ) == Some(crate::json::integer(group.state.observed_at->0 as int))
            &&& group.state.observed_at is None ==> crate::json::tree_member(
                state->0,
                "observed_at"@,
            ) == Some(Tree::Null)
        }),
{
    lemma_group_words();
    lemma_member_words();
    lemma_seen_words();
    let members = group_tree(group)->Object_0;
    crate::json::law_members_are_found(members, "id"@, 0);
    crate::json::law_members_are_found(members, "name"@, 1);
    crate::json::law_members_are_found(members, "member_ids"@, 2);
    crate::json::law_members_are_found(members, "capabilities"@, 3);
    crate::json::law_members_are_found(members, "availability"@, 4);
    crate::json::law_members_are_found(members, "members"@, 5);
    crate::json::law_members_are_found(members, "state"@, 6);
    let counts = members[5].1->Object_0;
    crate::json::law_members_are_found(counts, "total"@, 0);
    crate::json::law_members_are_found(counts, "online"@, 1);
    crate::json::law_members_are_found(counts, "offline"@, 2);
    crate::json::law_members_are_found(counts, "unknown"@, 3);
    let state = members[6].1->Object_0;
    crate::json::law_members_are_found(state, "relay"@, 0);
    crate::json::law_members_are_found(state, "observed_at"@, 1);
}

/// Exactly the devices that answered as themselves are stored anew.
pub proof fn law_fresh_states_are_those_seen(
    statuses: Seq<DeviceStatus>,
    count: int,
    device: SmartPlug,
)
    requires
        0 <= count <= statuses.len(),
    ensures
        answered(statuses, count).contains(device) <==> exists|k: int|
            0 <= k < count && (#[trigger] statuses[k]).status == ProbeStatus::Online(device),
    decreases count,
{
    if count > 0 {
        law_fresh_states_are_those_seen(statuses, count - 1, device);
        let front = answered(statuses, count - 1);
        let all = answered(statuses, count);
        match statuses[count - 1].status {
            ProbeStatus::Online(added) => {
                assert(all == front.push(added));
                assert(all[front.len() as int] == added);
                if front.contains(device) {
                    let i = choose|i: int| 0 <= i < front.len() && front[i] == device;
                    assert(all[i] == device);
                }
                if all.contains(device) && device != added {
                    let i = choose|i: int| 0 <= i < all.len() && all[i] == device;
                    assert(front[i] == device);
                }
            },
            _ => {},
        }
    }
}

} // verus!
