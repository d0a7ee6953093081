//! AMD graphics cards among the devices of a host: how their entries are
//! told apart and how their product names are found.

use vstd::prelude::*;
use crate::error::IdsError;
use crate::ids::{first_match, get_product_name, DeviceInfo};
use crate::utils::{append, contains, has_part, has_prefix, id_value, read_u16, starts_with};

verus! {

/// A graphics card: the directory of its device and its address on the bus.
#[derive(Debug)]
pub struct Device {
    pub path: String,
    pub bus_id: String,
}

/// One entry of the directory of graphics devices: its name, and the text
/// of the `uevent` file of its device where that could be read.
#[derive(Debug)]
pub struct Listed {
    pub name: String,
    pub uevent: Option<String>,
}

/// An entry that is an AMD graphics card: its name begins with `card`, and
/// its `uevent` file was read and holds the vendor's PCI id.
pub open spec fn is_amd_card(e: Listed) -> bool {
    &&& has_prefix(e.name@, "card"@)
    &&& e.uevent matches Some(u) && has_part(u@, "PCI_ID=1002"@)
}

/// The directory of the device with this bus id among the devices of a bus.
pub open spec fn device_path(root: Seq<char>, bus_id: Seq<char>) -> Seq<char> {
    root + "/"@ + bus_id
}

/// The product that the texts of a device file and a revision file name.
pub open spec fn product_of(device: Seq<char>, revision: Seq<char>, table: Seq<DeviceInfo>)
    -> Result<Option<String>, IdsError> {
    match id_value(device) {
        None => Err(IdsError::InvalidDeviceId),
        Some(device_id) => match id_value(revision) {
            None => Err(IdsError::InvalidRevisionId),
            Some(revision_id) => match first_match(table, device_id, revision_id) {
                Some(i) => Ok(Some(table[i].product_name)),
                None => Ok(None),
            },
        },
    }
}

/// Which entries of a listing are AMD graphics cards: their indices, in
/// rising order, all of them and no other.
pub fn amd_cards(listing: &Vec<Listed>) -> (r: Vec<usize>)
    ensures
        forall|k: int|
            0 <= k < r@.len() ==> r@[k] < listing@.len() && is_amd_card(
                listing@[#[trigger] r@[k] as int],
            ),
        forall|a: int, b: int| 0 <= a < b < r@.len() ==> #[trigger] r@[a] < #[trigger] r@[b],
        forall|i: int|
            0 <= i < listing@.len() && is_amd_card(#[trigger] listing@[i]) ==> r@.contains(
                i as usize,
            ),
{
    let mut r: Vec<usize> = Vec::new();
    let mut i: usize = 0;
    while i < listing.len()
        invariant
            i <= listing.len(),
            forall|k: int|
                0 <= k < r@.len() ==> r@[k] < i && is_amd_card(listing@[#[trigger] r@[k] as int]),
            forall|a: int, b: int| 0 <= a < b < r@.len() ==> #[trigger] r@[a] < #[trigger] r@[b],
            forall|j: int|
                0 <= j < i && is_amd_card(#[trigger] listing@[j]) ==> r@.contains(j as usize),
        decreases listing.len() - i,
    {
        let chosen = Device::is_card(listing[i].name.as_str()) && match &listing[i].uevent {
            Some(u) => Device::is_amd(u.as_str()),
            None => false,
        };
        if chosen {
            let ghost before = r@;
            r.push(i);
            assert forall|j: int| 0 <= j < i + 1 && is_amd_card(
                #[trigger] listing@[j],
            ) implies r@.contains(j as usize) by {
                if j < i {
                    let k = choose|k: int| 0 <= k < before.len() && before[k] == j as usize;
                    assert(r@[k] == j as usize);
                } else {
                    assert(r@[r@.len() - 1] == j as usize);
                }
            }
        }
        i += 1;
    }
    r
}

impl Device {
    /// The device with this bus id below `root`, the directory of the
    /// devices of the bus. Whether it is there is for the caller to see.
    pub fn from_bus_id(root: &str, bus_id: String) -> (r: Self)
        ensures
            r.path@ == device_path(root@, bus_id@),
            r.bus_id == bus_id,
    {
        let mut path = String::new();
        append(&mut path, root);
        append(&mut path, "/");
        append(&mut path, bus_id.as_str());
        assert(path@ =~= device_path(root@, bus_id@));
        Device { path, bus_id }
    }

    /// Whether a directory entry with this name is a graphics card: its
    /// name begins with `card`.
    pub fn is_card(name: &str) -> (r: bool)
        ensures
            r == has_prefix(name@, "card"@),
    {
        starts_with(name, "card")
    }

    /// Whether the `uevent` file of a device tells of an AMD device: it
    /// holds the vendor's PCI id.
    pub fn is_amd(uevent: &str) -> (r: bool)
        ensures
            r == has_part(uevent@, "PCI_ID=1002"@),
    {
        contains(uevent, "PCI_ID=1002")
    }

    /// The cards that were found, or nothing where none was.
    pub fn get_all_cards(found: Vec<Device>) -> (r: Option<Vec<Device>>)
        ensures
            r == if found@.len() == 0 {
                None
            } else {
                Some(found)
            },
    {
        if found.len() == 0 {
            None
        } else {
            Some(found)
        }
    }

    /// The product name of a card, from the text of its `device` file, the
    /// text of its `revision` file and the table of names. A card that the
    /// table does not know has no name, which is no error.
    pub fn get_gpu_name(device: &str, revision: &str, table: &Vec<DeviceInfo>) -> (r: Result<
        Option<String>,
        IdsError,
    >)
        ensures
            r == product_of(device@, revision@, table@),
    {
        let device_id = match read_u16(device) {
            Some(id) => id,
            None => {
                return Err(IdsError::InvalidDeviceId);
            },
        };
        let revision_id = match read_u16(revision) {
            Some(id) => id,
            None => {
                return Err(IdsError::InvalidRevisionId);
            },
        };
        Ok(get_product_name(table, device_id, revision_id))
    }
}

} // verus!
