//! A discovery tracker that remembers every device it opened until it is
//! told of a device error.
//!
//! Unlike the [`ConnectionManager`](crate::connectionmanager::ConnectionManager)
//! this tracker does not start afresh with each cycle: a product id stays
//! connected, and is left alone, until [`DeckManager::handle_messages`]
//! receives the error code, which forgets all of them at once.

use std::collections::HashSet;
use vstd::prelude::*;
use vstd::std_specs::hash::*;

use crate::connectionmanager::{is_candidate, DeviceInfo};
use crate::info::ELGATO_VID;
use crate::registry::device_ids;

verus! {

broadcast use vstd::std_specs::hash::group_hash_axioms;

/// The message code by which a device reports an error.
pub const DEVICE_ERROR: u32 = 2;

/// The product ids that are taken as connected.
#[derive(Debug)]
pub struct DeckManager {
    connected_devices: HashSet<u16>,
}

impl View for DeckManager {
    type V = Set<u16>;

    closed spec fn view(&self) -> Set<u16> {
        self.connected_devices@
    }
}

impl DeckManager {
    /// A tracker that takes no device as connected.
    pub fn new() -> (manager: Self)
        ensures
            manager@ == Set::<u16>::empty(),
    {
        DeckManager { connected_devices: HashSet::new() }
    }

    /// Takes in a message code from a device. The error code forgets every
    /// connected device; any other code changes nothing.
    pub fn handle_messages(&mut self, x: u32)
        ensures
            x == DEVICE_ERROR ==> final(self)@ == Set::<u16>::empty(),
            x != DEVICE_ERROR ==> final(self)@ == old(self)@,
    {
        if x == DEVICE_ERROR {
            self.connected_devices.clear();
        }
    }

    /// Finds the next attached device to open: the first one at or behind
    /// position `from` of the enumeration that is a deck and whose product
    /// id is not taken as connected. `None` when there is none left.
    pub fn handle_connections(&self, devices: &Vec<DeviceInfo>, from: usize) -> (next: Option<usize>)
        ensures
            match next {
                Some(at) => {
                    &&& from <= at < devices@.len()
                    &&& is_candidate(self@, devices@[at as int])
                    &&& forall|i: int| from <= i < at ==> !is_candidate(self@, #[trigger] devices@[i])
                },
                None => forall|i: int|
                    from <= i < devices@.len() ==> !is_candidate(self@, #[trigger] devices@[i]),
            },
    {
        let mut at: usize = from;
        while at < devices.len()
            invariant
                from <= at,
                forall|i: int| from <= i < at ==> !is_candidate(self@, #[trigger] devices@[i]),
            decreases devices.len() - at,
        {
            let device = devices[at];
            if device.vendor_id == ELGATO_VID && !self.connected_devices.contains(
                &device.product_id,
            ) {
                return Some(at);
            }
            at += 1;
        }
        None
    }

    /// Takes a device that was opened as connected.
    pub fn connected(&mut self, product_id: u16)
        ensures
            final(self)@ == old(self)@.insert(product_id),
    {
        self.connected_devices.insert(product_id);
    }

    /// The product ids that are taken as connected, each once, in no
    /// particular order.
    pub fn get_connected_devices(&self) -> (pids: Vec<u16>)
        ensures
            pids@.no_duplicates(),
            pids@.to_set() == self@,
            pids@.len() == self@.len(),
    {
        let pids = device_ids(&self.connected_devices);
        proof {
            pids@.unique_seq_to_set();
        }
        pids
    }
}

} // verus!
