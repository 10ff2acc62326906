//! A connected or known device as the applet and the settings window see it.

use vstd::prelude::*;

verus! {

pub struct Device {
    pub id: String,
    pub name: String,
    pub is_paired: bool,
    pub is_reachable: bool,
    pub battery_level: Option<i32>,
    pub is_charging: Option<bool>,
    pub signal_strength: Option<i32>,
    /// Progress of a file transfer in percent, while one runs.
    pub share_progress: Option<u8>,
    /// Commands the phone offers to run: (key, name).
    pub run_commands: Vec<(String, String)>,
    pub has_findmyphone: bool,
    pub has_clipboard: bool,
    pub has_share: bool,
    pub has_sftp: bool,
    pub is_mounted: bool,
}

/// Whether `devices` holds a paired device with the id `id`.
pub open spec fn has_paired(devices: Seq<Device>, id: Seq<char>) -> bool {
    exists|i: int| 0 <= i < devices.len() && devices[i].id@ == id && devices[i].is_paired
}

/// Index of the first paired device.
pub open spec fn first_paired(devices: Seq<Device>) -> Option<int>
    decreases devices.len(),
{
    if devices.len() == 0 {
        None
    } else if devices[0].is_paired {
        Some(0)
    } else {
        match first_paired(devices.drop_first()) {
            Some(i) => Some(i + 1),
            None => None,
        }
    }
}

pub proof fn lemma_first_paired(devices: Seq<Device>)
    ensures
        match first_paired(devices) {
            Some(i) => 0 <= i < devices.len() && devices[i].is_paired && forall|j: int|
                0 <= j < i ==> !devices[j].is_paired,
            None => forall|j: int| 0 <= j < devices.len() ==> !devices[j].is_paired,
        },
    decreases devices.len(),
{
    if devices.len() > 0 && !devices[0].is_paired {
        let rest = devices.drop_first();
        lemma_first_paired(rest);
        assert forall|j: int| 0 < j < devices.len() implies devices[j] == rest[j - 1] by {}
    }
}

/// Index of the first device with the id `id`.
pub open spec fn first_with_id(devices: Seq<Device>, id: Seq<char>) -> Option<int>
    decreases devices.len(),
{
    if devices.len() == 0 {
        None
    } else if devices[0].id@ == id {
        Some(0)
    } else {
        match first_with_id(devices.drop_first(), id) {
            Some(i) => Some(i + 1),
            None => None,
        }
    }
}

pub proof fn lemma_first_with_id(devices: Seq<Device>, id: Seq<char>)
    ensures
        match first_with_id(devices, id) {
            Some(i) => 0 <= i < devices.len() && devices[i].id@ == id && forall|j: int|
                0 <= j < i ==> devices[j].id@ != id,
            None => forall|j: int| 0 <= j < devices.len() ==> devices[j].id@ != id,
        },
    decreases devices.len(),
{
    if devices.len() > 0 && devices[0].id@ != id {
        let rest = devices.drop_first();
        lemma_first_with_id(rest, id);
        assert forall|j: int| 0 < j < devices.len() implies devices[j] == rest[j - 1] by {}
    }
}

/// The ids of the paired devices.
pub open spec fn paired_ids(devices: Seq<Device>) -> Set<Seq<char>> {
    Set::new(|k: Seq<char>| has_paired(devices, k))
}

/// Index of the first paired device, found by a scan.
pub fn find_first_paired(devices: &Vec<Device>) -> (r: Option<usize>)
    ensures
        r matches Some(i) ==> first_paired(devices@) == Some(i as int) && i < devices@.len(),
        r is None ==> first_paired(devices@) is None,
{
    proof {
        lemma_first_paired(devices@);
    }
    let mut i: usize = 0;
    while i < devices.len()
        invariant
            i <= devices@.len(),
            forall|j: int| 0 <= j < i ==> !devices@[j].is_paired,
            match first_paired(devices@) {
                Some(k) => 0 <= k < devices@.len() && devices@[k].is_paired && forall|j: int|
                    0 <= j < k ==> !devices@[j].is_paired,
                None => forall|j: int| 0 <= j < devices@.len() ==> !devices@[j].is_paired,
            },
        decreases devices.len() - i,
    {
        if devices[i].is_paired {
            return Some(i);
        }
        i += 1;
    }
    None
}

/// Index of the first device with the id `id`, found by a scan.
pub fn find_device(devices: &Vec<Device>, id: &str) -> (r: Option<usize>)
    ensures
        r matches Some(i) ==> first_with_id(devices@, id@) == Some(i as int) && i < devices@.len(),
        r is None ==> first_with_id(devices@, id@) is None,
{
    proof {
        lemma_first_with_id(devices@, id@);
    }
    let wanted: String = id.to_string();
    let mut i: usize = 0;
    while i < devices.len()
        invariant
            wanted@ == id@,
            i <= devices@.len(),
            forall|j: int| 0 <= j < i ==> devices@[j].id@ != id@,
            match first_with_id(devices@, id@) {
                Some(k) => 0 <= k < devices@.len() && devices@[k].id@ == id@ && forall|j: int|
                    0 <= j < k ==> devices@[j].id@ != id@,
                None => forall|j: int| 0 <= j < devices@.len() ==> devices@[j].id@ != id@,
            },
        decreases devices.len() - i,
    {
        if devices[i].id == wanted {
            return Some(i);
        }
        i += 1;
    }
    None
}

/// Whether `devices` holds a paired device with the id `id`.
pub fn any_paired_with_id(devices: &Vec<Device>, id: &str) -> (r: bool)
    ensures
        r == has_paired(devices@, id@),
{
    let wanted: String = id.to_string();
    let mut i: usize = 0;
    while i < devices.len()
        invariant
            wanted@ == id@,
            i <= devices@.len(),
            forall|j: int| 0 <= j < i ==> !(devices@[j].id@ == id@ && devices@[j].is_paired),
        decreases devices.len() - i,
    {
        if devices[i].id == wanted && devices[i].is_paired {
            return true;
        }
        i += 1;
    }
    false
}

} // verus!
