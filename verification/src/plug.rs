//! Plugs: their addresses, their descriptions of themselves, and the inventory of them.
use crate::error::Error;
use crate::quantity::Quantity;
use vstd::prelude::*;
use vstd::string::*;

verus! {

/// The address of a device: the bits of an IPv4 or of an IPv6 address.
#[derive(Debug, Clone, Copy, PartialEq, Eq, Structural)]
pub struct Address {
    pub v6: bool,
    pub bits: u128,
}

/// Whether an address comes before another: IPv4 first, then by the bits.
pub open spec fn address_before(left: Address, right: Address) -> bool {
    if left.v6 == right.v6 {
        left.bits < right.bits
    } else {
        right.v6
    }
}

impl Address {
    /// Whether this address comes before another.
    pub fn before(&self, other: &Address) -> (result: bool)
        ensures
            result == address_before(*self, *other),
    {
        if self.v6 == other.v6 {
            self.bits < other.bits
        } else {
            other.v6
        }
    }
}

/// An angle on earth in degrees: the number that the plug gives, the decimal text of that number,
/// and the number rounded to ten-thousandths.
#[derive(Debug, Clone, PartialEq, Eq)]
pub struct Degrees {
    pub exact: Quantity,
    pub text: String,
    pub ten_thousandths: i32,
}

fn duplicate_degrees(degrees: &Option<Degrees>) -> (copy: Option<Degrees>)
    ensures
        copy == *degrees,
{
    match degrees {
        Some(degrees) => Some(
            Degrees {
                exact: degrees.exact,
                text: degrees.text.clone(),
                ten_thousandths: degrees.ten_thousandths,
            },
        ),
        None => None,
    }
}

/// A plug as it describes itself.
#[derive(Debug, Clone, PartialEq, Eq)]
pub struct SmartPlug {
    pub address: Address,
    pub model: String,
    pub alias: String,
    pub device_id: String,
    pub software_version: String,
    pub relay_on: bool,
    pub brightness: Option<u8>,
    pub latitude: Option<Degrees>,
    pub longitude: Option<Degrees>,
}

impl SmartPlug {
    /// A copy of this plug.
    pub fn duplicate(&self) -> (copy: SmartPlug)
        ensures
            copy == *self,
    {
        SmartPlug {
            address: self.address,
            model: self.model.clone(),
            alias: self.alias.clone(),
            device_id: self.device_id.clone(),
            software_version: self.software_version.clone(),
            relay_on: self.relay_on,
            brightness: self.brightness,
            latitude: duplicate_degrees(&self.latitude),
            longitude: duplicate_degrees(&self.longitude),
        }
    }
}

/// The system information that a plug answers with.
#[derive(Debug, Clone)]
pub struct SysInfo {
    pub model: String,
    pub alias: String,
    pub device_id: String,
    pub sw_ver: String,
    pub relay_state: u8,
    pub err_code: i32,
    pub brightness: Option<u8>,
    pub latitude: Option<Degrees>,
    pub longitude: Option<Degrees>,
}

/// The plug that answered from an address with that information, where it succeeded.
pub open spec fn described_plug(info: SysInfo, address: Address) -> Option<SmartPlug> {
    if info.err_code != 0 {
        None
    } else {
        Some(
            SmartPlug {
                address,
                model: info.model,
                alias: info.alias,
                device_id: info.device_id,
                software_version: info.sw_ver,
                relay_on: info.relay_state != 0,
                brightness: info.brightness,
                latitude: info.latitude,
                longitude: info.longitude,
            },
        )
    }
}

/// The plug that a description speaks of; none where the description reports an error.
pub fn smart_plug(info: SysInfo, address: Address) -> (plug: Option<SmartPlug>)
    ensures
        plug == described_plug(info, address),
{
    if info.err_code != 0 {
        return None;
    }
    Some(
        SmartPlug {
            address,
            model: info.model,
            alias: info.alias,
            device_id: info.device_id,
            software_version: info.sw_ver,
            relay_on: info.relay_state != 0,
            brightness: info.brightness,
            latitude: info.latitude,
            longitude: info.longitude,
        },
    )
}

/// The plug that a direct answer describes. A description that reports an error is an error
/// of the protocol.
pub fn parse_sysinfo(info: SysInfo, address: Address) -> (plug: Result<SmartPlug, Error>)
    ensures
        match described_plug(info, address) {
            Some(described) => plug == Ok::<SmartPlug, Error>(described),
            None => plug matches Err(Error::Protocol { module, command, code, message })
                && module@ == "system"@ && command@ == "get_sysinfo"@ && code == -1
                && message is Some && message->0@
                == "device returned an unsuccessful system response"@,
        },
{
    match smart_plug(info, address) {
        Some(plug) => Ok(plug),
        None => Err(
            Error::Protocol {
                module: "system".to_owned(),
                command: "get_sysinfo".to_owned(),
                code: -1,
                message: Some("device returned an unsuccessful system response".to_owned()),
            },
        ),
    }
}

/// The first plug found at an address.
pub open spec fn first_at(found: Seq<SmartPlug>, address: Address) -> Option<SmartPlug>
    decreases found.len(),
{
    if found.len() == 0 {
        None
    } else if found[0].address == address {
        Some(found[0])
    } else {
        first_at(found.drop_first(), address)
    }
}

/// Whether addresses stand in strictly ascending order, so that none occurs twice.
pub open spec fn addresses_ascend(plugs: Seq<SmartPlug>) -> bool {
    forall|i: int, j: int|
        0 <= i < j < plugs.len() ==> address_before(
            #[trigger] plugs[i].address,
            #[trigger] plugs[j].address,
        )
}

/// Whether this is the inventory of what was found: of each address the first plug found
/// there, in the order of addresses.
pub open spec fn is_inventory(found: Seq<SmartPlug>, inventory: Seq<SmartPlug>) -> bool {
    &&& addresses_ascend(inventory)
    &&& forall|i: int|
        0 <= i < inventory.len() ==> first_at(found, (#[trigger] inventory[i]).address) == Some(
            inventory[i],
        )
    &&& forall|j: int|
        0 <= j < found.len() ==> exists|i: int|
            0 <= i < inventory.len() && (#[trigger] inventory[i]).address == (
            #[trigger] found[j]).address
}

proof fn lemma_first_at_push(found: Seq<SmartPlug>, plug: SmartPlug, address: Address)
    ensures
        first_at(found.push(plug), address) == (match first_at(found, address) {
            Some(first) => Some(first),
            None => if plug.address == address {
                Some(plug)
            } else {
                None
            },
        }),
    decreases found.len(),
{
    if found.len() == 0 {
        assert(found.push(plug)[0] == plug);
        assert(first_at(found.push(plug).drop_first(), address) is None);
    } else {
        assert(found.push(plug)[0] == found[0]);
        assert(found.push(plug).drop_first() =~= found.drop_first().push(plug));
        lemma_first_at_push(found.drop_first(), plug, address);
    }
}

proof fn lemma_first_at_some(found: Seq<SmartPlug>, address: Address)
    ensures
        match first_at(found, address) {
            Some(first) => exists|j: int| 0 <= j < found.len() && #[trigger] found[j] == first,
            None => forall|j: int|
                0 <= j < found.len() ==> (#[trigger] found[j]).address != address,
        },
    decreases found.len(),
{
    if found.len() > 0 {
        lemma_first_at_some(found.drop_first(), address);
        assert forall|j: int| 0 < j < found.len() implies #[trigger] found[j]
            == found.drop_first()[j - 1] by {}
        if found[0].address == address {
            assert(found[0] == first_at(found, address)->0);
        } else {
            match first_at(found.drop_first(), address) {
                Some(first) => {
                    let k = choose|k: int|
                        0 <= k < found.drop_first().len() && found.drop_first()[k] == first;
                    assert(found[k + 1] == first);
                },
                None => {},
            }
        }
    }
}

/// Adds a plug that answered to an inventory, unless its address is known.
fn note_plug(
    inventory: &mut Vec<SmartPlug>,
    plug: SmartPlug,
    Ghost(found): Ghost<Seq<SmartPlug>>,
)
    requires
        is_inventory(found, old(inventory)@),
    ensures
        is_inventory(found.push(plug), final(inventory)@),
{
    let ghost before = inventory@;
    let mut index: usize = 0;
    while index < inventory.len() && inventory[index].address.before(&plug.address)
        invariant
            inventory@ == before,
            index <= inventory@.len(),
            forall|i: int|
                0 <= i < index ==> address_before((#[trigger] inventory@[i]).address, plug.address),
        decreases inventory@.len() - index,
    {
        index = index + 1;
    }
    proof {
        lemma_first_at_some(found, plug.address);
        assert forall|address: Address| true implies #[trigger] first_at(found.push(plug), address)
            == (match first_at(found, address) {
            Some(first) => Some(first),
            None => if plug.address == address {
                Some(plug)
            } else {
                None
            },
        }) by {
            lemma_first_at_push(found, plug, address);
        }
    }
    let ghost more = found.push(plug);
    if index < inventory.len() && inventory[index].address == plug.address {
        proof {
            assert forall|j: int| 0 <= j < more.len() implies exists|i: int|
                0 <= i < before.len() && (#[trigger] before[i]).address == (
                #[trigger] more[j]).address by {
                if j < found.len() {
                    assert(more[j] == found[j]);
                } else {
                    assert(before[index as int].address == more[j].address);
                }
            }
        }
        return ;
    }
    let ghost noted = before.insert(index as int, plug);
    proof {
        assert forall|i: int| index <= i < before.len() implies address_before(
            plug.address,
            (#[trigger] before[i]).address,
        ) by {
            assert(before[index as int].address == before[index as int].address);
        }
        assert forall|i: int| 0 <= i < before.len() implies (#[trigger] before[i]).address
            != plug.address by {}
        assert(first_at(found, plug.address) is None) by {
            if first_at(found, plug.address) is Some {
                let first = first_at(found, plug.address)->0;
                let j = choose|j: int| 0 <= j < found.len() && found[j] == first;
                lemma_first_at_address(found, plug.address);
                let i = choose|i: int|
                    0 <= i < before.len() && (#[trigger] before[i]).address == found[j].address;
                assert(before[i].address == plug.address);
            }
        }
        assert forall|i: int| 0 <= i < noted.len() implies first_at(
            more,
            (#[trigger] noted[i]).address,
        ) == Some(noted[i]) by {
            if i < index {
                assert(noted[i] == before[i]);
            } else if i > index {
                assert(noted[i] == before[i - 1]);
            }
        }
        assert forall|j: int| 0 <= j < more.len() implies exists|i: int|
            0 <= i < noted.len() && (#[trigger] noted[i]).address == (#[trigger] more[j]).address by {
            if j < found.len() {
                assert(more[j] == found[j]);
                let i = choose|i: int|
                    0 <= i < before.len() && (#[trigger] before[i]).address == found[j].address;
                if i < index {
                    assert(noted[i] == before[i]);
                } else {
                    assert(noted[i + 1] == before[i]);
                }
            } else {
                assert(noted[index as int].address == more[j].address);
            }
        }
        assert forall|i: int, j: int| 0 <= i < j < noted.len() implies address_before(
            #[trigger] noted[i].address,
            #[trigger] noted[j].address,
        ) by {
            if j < index {
                assert(noted[i] == before[i] && noted[j] == before[j]);
            } else if j == index {
                assert(noted[i] == before[i]);
            } else if i < index {
                assert(noted[i] == before[i] && noted[j] == before[j - 1]);
                assert(address_before(before[i].address, before[j - 1].address));
            } else if i == index {
                assert(noted[j] == before[j - 1]);
            } else {
                assert(noted[i] == before[i - 1] && noted[j] == before[j - 1]);
            }
        }
    }
    inventory.insert(index, plug);
}

proof fn lemma_first_at_address(found: Seq<SmartPlug>, address: Address)
    ensures
        first_at(found, address) matches Some(first) ==> first.address == address,
    decreases found.len(),
{
    if found.len() > 0 {
        lemma_first_at_address(found.drop_first(), address);
    }
}

/// The inventory that a series of answers makes up: of each address the first plug that
/// answered from it, in the order of addresses.
pub fn inventory(found: Vec<SmartPlug>) -> (inventory: Vec<SmartPlug>)
    ensures
        is_inventory(found@, inventory@),
{
    let mut found = found;
    let ghost all = found@;
    let ghost mut seen: Seq<SmartPlug> = seq![];
    let mut inventory: Vec<SmartPlug> = Vec::new();
    while found.len() > 0
        invariant
            is_inventory(seen, inventory@),
            seen + found@ == all,
        decreases found@.len(),
    {
        let plug = found.remove(0);
        note_plug(&mut inventory, plug, Ghost(seen));
        proof {
            seen = seen.push(plug);
            assert(seen + found@ =~= all);
        }
    }
    proof {
        assert(seen =~= all);
    }
    inventory
}

/// Whether addresses stand in strictly ascending order, so that none occurs twice.
pub open spec fn ascending(addresses: Seq<Address>) -> bool {
    forall|i: int, j: int|
        0 <= i < j < addresses.len() ==> address_before(
            #[trigger] addresses[i],
            #[trigger] addresses[j],
        )
}

/// Sorts addresses and leaves out repetitions.
pub fn sorted_addresses(addresses: &Vec<Address>) -> (sorted: Vec<Address>)
    ensures
        ascending(sorted@),
        forall|address: Address| #[trigger]
            sorted@.contains(address) <==> addresses@.contains(address),
{
    let mut sorted: Vec<Address> = Vec::new();
    let mut next: usize = 0;
    while next < addresses.len()
        invariant
            next <= addresses@.len(),
            ascending(sorted@),
            forall|address: Address| #[trigger]
                sorted@.contains(address) <==> addresses@.take(next as int).contains(address),
        decreases addresses@.len() - next,
    {
        let address = addresses[next];
        let ghost before = sorted@;
        let mut index: usize = 0;
        while index < sorted.len() && sorted[index].before(&address)
            invariant
                sorted@ == before,
                index <= sorted@.len(),
                forall|i: int| 0 <= i < index ==> address_before(#[trigger] sorted@[i], address),
            decreases sorted@.len() - index,
        {
            index = index + 1;
        }
        let ghost more = addresses@.take(next + 1);
        proof {
            assert(more =~= addresses@.take(next as int).push(address));
            assert forall|other: Address| #[trigger] more.contains(other) <==> (
            addresses@.take(next as int).contains(other) || other == address) by {
                if addresses@.take(next as int).contains(other) {
                    let k = choose|k: int|
                        0 <= k < next && addresses@.take(next as int)[k] == other;
                    assert(more[k] == other);
                }
                if other == address {
                    assert(more[next as int] == other);
                }
            }
        }
        if index < sorted.len() && sorted[index] == address {
            proof {
                assert(sorted@.contains(address));
            }
        } else {
            sorted.insert(index, address);
            proof {
                lemma_address_inserted(before, index as int, address);
            }
        }
        next = next + 1;
    }
    proof {
        assert(addresses@.take(next as int) =~= addresses@);
    }
    sorted
}

proof fn lemma_address_inserted(before: Seq<Address>, index: int, address: Address)
    requires
        0 <= index <= before.len(),
        ascending(before),
        forall|i: int| 0 <= i < index ==> address_before(#[trigger] before[i], address),
        index < before.len() ==> !address_before(before[index], address) && before[index]
            != address,
    ensures
        ascending(before.insert(index, address)),
        forall|other: Address| #[trigger]
            before.insert(index, address).contains(other) <==> (before.contains(other) || other
                == address),
{
    let after = before.insert(index, address);
    assert forall|i: int, j: int| 0 <= i < j < after.len() implies address_before(
        #[trigger] after[i],
        #[trigger] after[j],
    ) by {
        if j < index {
            assert(after[i] == before[i] && after[j] == before[j]);
        } else if j == index {
            assert(after[i] == before[i]);
        } else if i < index {
            assert(after[i] == before[i] && after[j] == before[j - 1]);
            assert(address_before(before[i], before[j - 1]));
        } else if i == index {
            assert(after[j] == before[j - 1]);
            assert(address_before(address, before[index]));
            if j - 1 > index {
                assert(address_before(before[index], before[j - 1]));
            }
        } else {
            assert(after[i] == before[i - 1] && after[j] == before[j - 1]);
        }
    }
    assert forall|other: Address| #[trigger] after.contains(other) <==> (before.contains(other)
        || other == address) by {
        if after.contains(other) {
            let k = choose|k: int| 0 <= k < after.len() && after[k] == other;
            if k < index {
                assert(before[k] == other);
            } else if k > index {
                assert(before[k - 1] == other);
            }
        }
        if before.contains(other) {
            let k = choose|k: int| 0 <= k < before.len() && before[k] == other;
            if k < index {
                assert(after[k] == other);
            } else {
                assert(after[k + 1] == other);
            }
        }
        if other == address {
            assert(after[index] == other);
        }
    }
}

/// A plug is what its answer says of it, at the address that it answered from: on where its relay
/// is reported as anything but zero. An answer that reports an error describes none.
pub proof fn law_plugs_are_as_described(info: SysInfo, address: Address)
    ensures
        described_plug(info, address) is Some <==> info.err_code == 0,
        described_plug(info, address) matches Some(plug) ==> {
            &&& plug.address == address
            &&& plug.model == info.model
            &&& plug.alias == info.alias
            &&& plug.device_id == info.device_id
            &&& plug.software_version == info.sw_ver
            &&& info.relay_state == 0 ==> !plug.relay_on
            &&& info.relay_state > 0 ==> plug.relay_on
            &&& plug.brightness == info.brightness
            &&& plug.latitude == info.latitude
            &&& plug.longitude == info.longitude
        },
{
}

/// Addresses of the fourth version of the protocol come before those of the sixth, and those of
/// one version in the order of their bits, so that any two different addresses are ordered.
pub proof fn law_addresses_are_ordered(left: Address, right: Address)
    ensures
        !left.v6 && right.v6 ==> address_before(left, right),
        left.v6 && !right.v6 ==> !address_before(left, right),
        left.v6 == right.v6 ==> (address_before(left, right) <==> left.bits < right.bits),
        left != right ==> address_before(left, right) != address_before(right, left),
        !address_before(left, left),
{
}

/// The inventory holds of each address that answered the first plug that did, and no other.
pub proof fn law_first_answers_count(
    found: Seq<SmartPlug>,
    inventory: Seq<SmartPlug>,
    first: int,
)
    requires
        is_inventory(found, inventory),
        0 <= first < found.len(),
        forall|i: int|
            0 <= i < first ==> (#[trigger] found[i]).address != found[first].address,
    ensures
        inventory.contains(found[first]),
        forall|i: int, j: int|
            0 <= i < j < inventory.len() ==> (#[trigger] inventory[i]).address != (
            #[trigger] inventory[j]).address,
{
    let address = found[first].address;
    lemma_first_at(found, first);
    let i = choose|i: int|
        0 <= i < inventory.len() && (#[trigger] inventory[i]).address == found[first].address;
    assert(first_at(found, inventory[i].address) == Some(inventory[i]));
    assert forall|i: int, j: int| 0 <= i < j < inventory.len() implies (
    #[trigger] inventory[i]).address != (#[trigger] inventory[j]).address by {
        assert(address_before(inventory[i].address, inventory[j].address));
    }
}

proof fn lemma_first_at(found: Seq<SmartPlug>, first: int)
    requires
        0 <= first < found.len(),
        forall|i: int|
            0 <= i < first ==> (#[trigger] found[i]).address != found[first].address,
    ensures
        first_at(found, found[first].address) == Some(found[first]),
    decreases first,
{
    if first > 0 {
        let rest = found.drop_first();
        assert(found[0].address != found[first].address);
        assert(rest[first - 1] == found[first]);
        assert forall|i: int| 0 <= i < first - 1 implies (#[trigger] rest[i]).address
            != rest[first - 1].address by {
            assert(rest[i] == found[i + 1]);
        }
        lemma_first_at(rest, first - 1);
    }
}

} // verus!
