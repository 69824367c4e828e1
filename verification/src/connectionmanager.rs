//! The discovery cycle: which of the devices that are attached right now
//! should be opened and registered.
//!
//! One cycle goes like this. The shell enumerates the attached devices and
//! asks for the [`ConnectionManager::candidates`]. It tries to open each
//! candidate, sends a registration request to the hub for each one it could
//! open, and ends the cycle with [`ConnectionManager::finish_cycle`], naming
//! the devices it opened. Those, and only those, are left alone in the next
//! cycle.

use std::collections::HashSet;
use vstd::prelude::*;
use vstd::std_specs::hash::*;

use crate::hub::Connect;
use crate::info::ELGATO_VID;

verus! {

broadcast use vstd::std_specs::hash::group_hash_axioms;

/// The time between two discovery cycles, in seconds.
pub const SCAN_INTERVAL_SECS: u64 = 5;

/// One entry of an enumeration of the attached devices.
#[derive(Debug, Clone, Copy, PartialEq, Eq, Hash, Structural)]
pub struct DeviceInfo {
    pub vendor_id: u16,
    pub product_id: u16,
}

/// Whether a cycle tries to open an attached device: it is a deck, and the
/// cycle before did not open a device with its product id.
pub open spec fn is_candidate(known: Set<u16>, device: DeviceInfo) -> bool {
    device.vendor_id == ELGATO_VID && !known.contains(device.product_id)
}

/// The product ids that a cycle tries to open, one for every attached
/// device that is a candidate, in the order of the enumeration. Two
/// attached devices with the same product id give the id twice.
pub open spec fn candidates_of(known: Set<u16>, devices: Seq<DeviceInfo>) -> Seq<u16>
    decreases devices.len(),
{
    if devices.len() == 0 {
        Seq::empty()
    } else {
        let earlier = candidates_of(known, devices.drop_last());
        if is_candidate(known, devices.last()) {
            earlier.push(devices.last().product_id)
        } else {
            earlier
        }
    }
}

/// The discovery loop's memory between two cycles.
#[derive(Debug)]
pub struct ConnectionManager {
    prev_connected: HashSet<u16>,
}

impl View for ConnectionManager {
    type V = Set<u16>;

    /// The product ids that the last finished cycle opened.
    closed spec fn view(&self) -> Set<u16> {
        self.prev_connected@
    }
}

impl ConnectionManager {
    /// The state before the first cycle: nothing was opened yet.
    pub fn new() -> (manager: Self)
        ensures
            manager@ == Set::<u16>::empty(),
    {
        ConnectionManager { prev_connected: HashSet::new() }
    }

    /// Whether the last finished cycle opened a device with this product id.
    pub fn is_known(&self, product_id: u16) -> (found: bool)
        ensures
            found == self@.contains(product_id),
    {
        self.prev_connected.contains(&product_id)
    }

    /// The product ids to open in this cycle.
    pub fn candidates(&self, devices: &Vec<DeviceInfo>) -> (pids: Vec<u16>)
        ensures
            pids@ == candidates_of(self@, devices@),
    {
        let mut pids: Vec<u16> = Vec::new();
        let mut i: usize = 0;
        while i < devices.len()
            invariant
                i <= devices.len(),
                pids@ == candidates_of(self@, devices@.take(i as int)),
            decreases devices.len() - i,
        {
            proof {
                assert(devices@.take(i + 1).drop_last() =~= devices@.take(i as int));
            }
            let device = devices[i];
            if device.vendor_id == ELGATO_VID && !self.prev_connected.contains(&device.product_id) {
                pids.push(device.product_id);
            }
            i += 1;
        }
        assert(devices@.take(devices.len() as int) =~= devices@);
        pids
    }

    /// The registration request for a device that was opened.
    pub fn registration(product_id: u16) -> (request: Connect)
        ensures
            request.devid() == product_id,
    {
        Connect::new(product_id)
    }

    /// Ends a cycle. What the cycle opened replaces what was remembered
    /// before; a device that the cycle did not open, for whatever reason, is
    /// forgotten and becomes a candidate again.
    pub fn finish_cycle(&mut self, opened: &Vec<u16>)
        ensures
            final(self)@ == opened@.to_set(),
    {
        let mut now_connected: HashSet<u16> = HashSet::new();
        let mut i: usize = 0;
        while i < opened.len()
            invariant
                i <= opened.len(),
                now_connected@ == opened@.take(i as int).to_set(),
            decreases opened.len() - i,
        {
            now_connected.insert(opened[i]);
            i += 1;
            assert(opened@.take(i as int) =~= opened@.take(i - 1).push(opened@[i - 1]));
            proof {
                opened@.take(i - 1).lemma_push_to_set_commute(opened@[i - 1]);
            }
        }
        assert(opened@.take(opened.len() as int) =~= opened@);
        self.prev_connected = now_connected;
    }
}

/// A cycle asks for a product id exactly if some attached device with that
/// id is a deck and the cycle before did not open the id.
pub proof fn lemma_candidates(known: Set<u16>, devices: Seq<DeviceInfo>, pid: u16)
    ensures
        candidates_of(known, devices).contains(pid) <==> exists|i: int|
            0 <= i < devices.len() && is_candidate(known, #[trigger] devices[i])
                && devices[i].product_id == pid,
    decreases devices.len(),
{
    let found = candidates_of(known, devices);
    if devices.len() > 0 {
        let earlier = candidates_of(known, devices.drop_last());
        lemma_candidates(known, devices.drop_last(), pid);
        let last = devices.len() - 1;
        if found.contains(pid) {
            let k = choose|k: int| 0 <= k < found.len() && found[k] == pid;
            if is_candidate(known, devices.last()) && k == found.len() - 1 {
                assert(is_candidate(known, devices[last]) && devices[last].product_id == pid);
            } else {
                assert(earlier[k] == pid);
                assert(earlier.contains(pid));
                let i = choose|i: int|
                    0 <= i < devices.drop_last().len() && is_candidate(
                        known,
                        #[trigger] devices.drop_last()[i],
                    ) && devices.drop_last()[i].product_id == pid;
                assert(is_candidate(known, devices[i]) && devices[i].product_id == pid);
            }
        }
        if exists|i: int|
            0 <= i < devices.len() && is_candidate(known, #[trigger] devices[i])
                && devices[i].product_id == pid {
            let i = choose|i: int|
                0 <= i < devices.len() && is_candidate(known, #[trigger] devices[i])
                    && devices[i].product_id == pid;
            if i == last {
                assert(found.last() == pid);
            } else {
                assert(is_candidate(known, devices.drop_last()[i]) && devices.drop_last()[i].product_id
                    == pid);
                assert(earlier.contains(pid));
                let k = choose|k: int| 0 <= k < earlier.len() && earlier[k] == pid;
                assert(found[k] == pid);
            }
        }
    }
}

/// A device that one cycle opened is left alone by the next cycle, and it
/// is a candidate again in the cycle after that, provided the next cycle
/// did not open its product id and it is still attached.
pub proof fn lemma_opened_device_rests_one_cycle(
    opened: Seq<u16>,
    next_opened: Seq<u16>,
    device: DeviceInfo,
)
    requires
        device.vendor_id == ELGATO_VID,
        opened.contains(device.product_id),
    ensures
        !is_candidate(opened.to_set(), device),
        !next_opened.contains(device.product_id) ==> is_candidate(next_opened.to_set(), device),
{
}

} // verus!
