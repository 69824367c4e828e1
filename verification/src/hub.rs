//! The hub: the single coordinator that owns the device registry, the
//! listener registry and the profile state machine.
//!
//! The hub handles one message at a time. Each handler changes the hub's
//! own state and returns what has to be sent on: a [`Notice`] for every
//! listener that is to hear of an event, a [`Delivery`] for every device
//! that is to get a command, a [`Broadcast`] that is to come back to the hub
//! as a message of its own.

use std::collections::HashSet;
use vstd::prelude::*;
use vstd::std_specs::hash::*;
use vstd::string::*;

use crate::deckactor::{ButtonChange, ButtonState, Command, MsgType};
use crate::deckstate::{dispatched, requested, DeckHandler, ProfileSet};
use crate::registry::{device_ids, listener_ids};
use crate::text::{decimal, push_decimal};

verus! {

broadcast use vstd::std_specs::hash::group_hash_axioms;

/// Tells the hub that the device with this id is gone.
#[derive(Debug, Clone, Copy, PartialEq, Eq, Structural)]
pub struct Disconnect(pub u16);

/// Asks the hub to register the device with this id.
#[derive(Debug, Clone, Copy, PartialEq, Eq, Structural)]
pub struct Connect {
    devid: u16,
}

impl Connect {
    pub fn new(devid: u16) -> (request: Self)
        ensures
            request.devid() == devid,
    {
        Connect { devid }
    }

    /// The device to register.
    pub closed spec fn devid(&self) -> u16 {
        self.devid
    }

    /// The device to register.
    #[verifier::when_used_as_spec(devid)]
    pub fn id(&self) -> (devid: u16)
        ensures
            devid == self.devid(),
    {
        self.devid
    }
}

/// The text of an event, as listeners receive it.
#[derive(Debug, PartialEq, Eq)]
pub struct HubMessage(pub String);

impl View for HubMessage {
    type V = Seq<char>;

    open spec fn view(&self) -> Seq<char> {
        self.0@
    }
}

impl Clone for HubMessage {
    fn clone(&self) -> (copy: Self)
        ensures
            copy@ == self@,
    {
        HubMessage(self.0.clone())
    }
}

/// A listener subscribing or unsubscribing.
#[derive(Debug, Clone, Copy, PartialEq, Eq, Structural)]
pub enum ListenerEvent {
    Connect(usize),
    Disconnect(usize),
}

/// Asks the hub to send the command to every registered device.
#[derive(Debug, PartialEq, Eq)]
pub struct Broadcast(pub MsgType);

impl Clone for Broadcast {
    fn clone(&self) -> (copy: Self)
        ensures
            copy.0@ == self.0@,
    {
        Broadcast(self.0.clone())
    }
}

/// One event text on its way to one listener.
#[derive(Debug, PartialEq, Eq)]
pub struct Notice {
    pub listener: usize,
    pub msg: HubMessage,
}

/// One command on its way to the outbound queue of one device.
#[derive(Debug, PartialEq, Eq)]
pub struct Delivery {
    pub devid: u16,
    pub msg: MsgType,
}

/// The text that announces a registered device.
pub open spec fn connected_text(devid: u16) -> Seq<char> {
    "Connected "@ + decimal(devid as nat)
}

/// The text that announces a removed device.
pub open spec fn disconnected_text(devid: u16) -> Seq<char> {
    "Disconnected "@ + decimal(devid as nat)
}

/// The name of a button state in event texts.
pub open spec fn state_name(state: ButtonState) -> Seq<char> {
    match state {
        ButtonState::Pressed => "Pressed"@,
        ButtonState::Released => "Released"@,
    }
}

/// The text that announces a button change.
pub open spec fn button_text(change: ButtonChange) -> Seq<char> {
    "Button "@ + decimal(change.btn as nat) + " "@ + state_name(change.state)
}

/// The listeners that a sequence of notices addresses, in order.
pub open spec fn addressees(notices: Seq<Notice>) -> Seq<usize> {
    notices.map_values(|notice: Notice| notice.listener)
}

/// The devices that a sequence of deliveries addresses, in order.
pub open spec fn targets(deliveries: Seq<Delivery>) -> Seq<u16> {
    deliveries.map_values(|delivery: Delivery| delivery.devid)
}

/// Whether the notices carry one event to the listeners: exactly one notice
/// for each listener, none for anybody else, and the same text in all.
pub open spec fn announces(notices: Seq<Notice>, listeners: Set<usize>, text: Seq<char>) -> bool {
    &&& notices.len() == listeners.len()
    &&& addressees(notices).no_duplicates()
    &&& addressees(notices).to_set() == listeners
    &&& forall|i: int| 0 <= i < notices.len() ==> (#[trigger] notices[i]).msg@ == text
}

/// Whether the deliveries carry one command to the devices: exactly one
/// delivery for each device, none for any other, and the same command in
/// all.
pub open spec fn reaches(deliveries: Seq<Delivery>, devices: Set<u16>, cmd: Command) -> bool {
    &&& deliveries.len() == devices.len()
    &&& targets(deliveries).no_duplicates()
    &&& targets(deliveries).to_set() == devices
    &&& forall|i: int| 0 <= i < deliveries.len() ==> (#[trigger] deliveries[i]).msg@ == cmd
}

/// The hub.
#[derive(Debug)]
pub struct DeckHub {
    connected_devices: HashSet<u16>,
    state: DeckHandler,
    listeners: HashSet<usize>,
}

/// The mathematical value of a [`DeckHub`].
pub ghost struct HubState {
    /// The registered devices. A device id is in the registry or it is not:
    /// there is no way for it to be registered twice.
    pub devices: Set<u16>,
    /// The subscribed listeners.
    pub listeners: Set<usize>,
    /// The profile state machine.
    pub profiles: ProfileSet,
}

impl View for DeckHub {
    type V = HubState;

    closed spec fn view(&self) -> HubState {
        HubState {
            devices: self.connected_devices@,
            listeners: self.listeners@,
            profiles: self.state@,
        }
    }
}

fn connected_message(devid: u16) -> (msg: HubMessage)
    ensures
        msg@ == connected_text(devid),
{
    let mut text = String::from_str("Connected ");
    push_decimal(&mut text, devid as u64);
    HubMessage(text)
}

fn disconnected_message(devid: u16) -> (msg: HubMessage)
    ensures
        msg@ == disconnected_text(devid),
{
    let mut text = String::from_str("Disconnected ");
    push_decimal(&mut text, devid as u64);
    HubMessage(text)
}

fn button_message(change: ButtonChange) -> (msg: HubMessage)
    ensures
        msg@ == button_text(change),
{
    let mut text = String::from_str("Button ");
    push_decimal(&mut text, change.btn as u64);
    text.append(" ");
    match change.state {
        ButtonState::Pressed => text.append("Pressed"),
        ButtonState::Released => text.append("Released"),
    }
    HubMessage(text)
}

impl DeckHub {
    /// A hub without devices and without listeners, around the given
    /// profile state machine.
    pub fn new(state: DeckHandler) -> (hub: Self)
        ensures
            hub@.devices == Set::<u16>::empty(),
            hub@.listeners == Set::<usize>::empty(),
            hub@.profiles == state@,
    {
        DeckHub { connected_devices: HashSet::new(), state, listeners: HashSet::new() }
    }

    /// Whether the device is registered.
    pub fn is_connected(&self, devid: u16) -> (connected: bool)
        ensures
            connected == self@.devices.contains(devid),
    {
        self.connected_devices.contains(&devid)
    }

    /// Whether the listener is subscribed.
    pub fn is_listening(&self, listener: usize) -> (listening: bool)
        ensures
            listening == self@.listeners.contains(listener),
    {
        self.listeners.contains(&listener)
    }

    /// The number of registered devices.
    pub fn device_count(&self) -> (count: usize)
        ensures
            count == self@.devices.len(),
    {
        self.connected_devices.len()
    }

    /// The profile that is active.
    pub fn active_state(&self) -> (active: u32)
        ensures
            active == self@.profiles.active,
    {
        self.state.active_state
    }

    /// The profile state machine.
    pub fn state(&self) -> (state: &DeckHandler)
        ensures
            state@ == self@.profiles,
    {
        &self.state
    }

    /// One copy of the event for each subscribed listener.
    pub fn send_to_listeners(&self, msg: HubMessage) -> (notices: Vec<Notice>)
        ensures
            announces(notices@, self@.listeners, msg@),
    {
        let ids = listener_ids(&self.listeners);
        proof {
            ids@.unique_seq_to_set();
        }
        let mut notices: Vec<Notice> = Vec::new();
        let mut i: usize = 0;
        while i < ids.len()
            invariant
                i <= ids.len(),
                addressees(notices@) == ids@.take(i as int),
                forall|k: int| 0 <= k < notices.len() ==> (#[trigger] notices[k]).msg@ == msg@,
            decreases ids.len() - i,
        {
            let ghost before = notices@;
            notices.push(Notice { listener: ids[i], msg: msg.clone() });
            i += 1;
            assert(addressees(notices@) =~= addressees(before).push(ids@[i - 1]));
            assert(ids@.take(i as int) =~= ids@.take(i - 1).push(ids@[i - 1]));
        }
        assert(addressees(notices@) =~= ids@);
        notices
    }

    /// Registers a device.
    ///
    /// A device that is already registered is refused: the hub answers
    /// `false`, stays as it is and announces nothing. Otherwise the hub
    /// answers `true`, which is the order to start the actor of the device,
    /// enters the device and announces it to every listener.
    pub fn handle_connect(&mut self, msg: Connect) -> (out: (bool, Vec<Notice>))
        ensures
            out.0 == !old(self)@.devices.contains(msg.devid()),
            out.0 ==> {
                &&& final(self)@ == HubState {
                    devices: old(self)@.devices.insert(msg.devid()),
                    ..old(self)@
                }
                &&& announces(out.1@, old(self)@.listeners, connected_text(msg.devid()))
            },
            !out.0 ==> final(self)@ == old(self)@ && out.1@.len() == 0,
    {
        if self.connected_devices.contains(&msg.devid) {
            return (false, Vec::new());
        }
        let notices = self.send_to_listeners(connected_message(msg.devid));
        self.connected_devices.insert(msg.devid);
        (true, notices)
    }

    /// Sends a command to every registered device.
    pub fn handle_broadcast(&self, msg: Broadcast) -> (deliveries: Vec<Delivery>)
        ensures
            reaches(deliveries@, self@.devices, msg.0@),
    {
        let ids = device_ids(&self.connected_devices);
        proof {
            ids@.unique_seq_to_set();
        }
        let mut deliveries: Vec<Delivery> = Vec::new();
        let mut i: usize = 0;
        while i < ids.len()
            invariant
                i <= ids.len(),
                targets(deliveries@) == ids@.take(i as int),
                forall|k: int|
                    0 <= k < deliveries.len() ==> (#[trigger] deliveries[k]).msg@ == msg.0@,
            decreases ids.len() - i,
        {
            let ghost before = deliveries@;
            deliveries.push(Delivery { devid: ids[i], msg: msg.0.clone() });
            i += 1;
            assert(targets(deliveries@) =~= targets(before).push(ids@[i - 1]));
            assert(ids@.take(i as int) =~= ids@.take(i - 1).push(ids@[i - 1]));
        }
        assert(targets(deliveries@) =~= ids@);
        deliveries
    }

    /// Takes in a button change of some device.
    ///
    /// Every listener hears of the change. The profile state machine then
    /// reacts to it; a command that it wants broadcast comes back as a
    /// [`Broadcast`], to be handed to the hub as its next message.
    pub fn handle_button_change(&mut self, msg: ButtonChange) -> (out: (
        Vec<Notice>,
        Option<Broadcast>,
    ))
        ensures
            announces(out.0@, old(self)@.listeners, button_text(msg)),
            final(self)@.devices == old(self)@.devices,
            final(self)@.listeners == old(self)@.listeners,
            (final(self)@.profiles, requested(out.1)) == dispatched(old(self)@.profiles, msg),
            msg.state is Released ==> final(self)@ == old(self)@ && out.1 is None,
    {
        let notices = self.send_to_listeners(button_message(msg));
        let request = self.state.handle_btn_press(msg);
        (notices, request)
    }

    /// Removes a device.
    ///
    /// For a registered device the hub answers `true`, removes that device
    /// and no other, and announces the removal to every listener. For any
    /// other id it answers `false`, stays as it is and announces nothing.
    pub fn handle_disconnect(&mut self, msg: Disconnect) -> (out: (bool, Vec<Notice>))
        ensures
            out.0 == old(self)@.devices.contains(msg.0),
            out.0 ==> {
                &&& final(self)@ == HubState {
                    devices: old(self)@.devices.remove(msg.0),
                    ..old(self)@
                }
                &&& announces(out.1@, old(self)@.listeners, disconnected_text(msg.0))
            },
            !out.0 ==> final(self)@ == old(self)@ && out.1@.len() == 0,
    {
        if self.connected_devices.contains(&msg.0) {
            self.connected_devices.remove(&msg.0);
            let notices = self.send_to_listeners(disconnected_message(msg.0));
            return (true, notices);
        }
        (false, Vec::new())
    }

    /// Subscribes or unsubscribes a listener. Subscribing twice is the same
    /// as subscribing once; unsubscribing a stranger changes nothing.
    pub fn handle_listener_event(&mut self, msg: ListenerEvent)
        ensures
            final(self)@.devices == old(self)@.devices,
            final(self)@.profiles == old(self)@.profiles,
            msg matches ListenerEvent::Connect(id) ==> final(self)@.listeners == old(
                self,
            )@.listeners.insert(id),
            msg matches ListenerEvent::Disconnect(id) ==> final(self)@.listeners == old(
                self,
            )@.listeners.remove(id),
    {
        match msg {
            ListenerEvent::Connect(id) => {
                self.listeners.insert(id);
            },
            ListenerEvent::Disconnect(id) => {
                self.listeners.remove(&id);
            },
        }
    }
}

/// The outbound queues of the devices once the deliveries have been
/// carried out: each delivery, in order, is appended to the queue of its
/// device. A delivery for a device without a queue is lost.
pub open spec fn delivered(queues: Map<u16, Seq<Command>>, deliveries: Seq<Delivery>) -> Map<
    u16,
    Seq<Command>,
>
    decreases deliveries.len(),
{
    if deliveries.len() == 0 {
        queues
    } else {
        let before = delivered(queues, deliveries.drop_last());
        let last = deliveries.last();
        if before.contains_key(last.devid) {
            before.insert(last.devid, before[last.devid].push(last.msg@))
        } else {
            before
        }
    }
}

/// Deliveries to distinct devices that all carry the same command put that
/// command once at the end of the queue of each addressed device and leave
/// every other queue as it is.
proof fn lemma_delivered(queues: Map<u16, Seq<Command>>, deliveries: Seq<Delivery>, cmd: Command)
    requires
        targets(deliveries).no_duplicates(),
        forall|i: int| 0 <= i < deliveries.len() ==> (#[trigger] deliveries[i]).msg@ == cmd,
        forall|i: int|
            0 <= i < deliveries.len() ==> queues.contains_key((#[trigger] deliveries[i]).devid),
    ensures
        delivered(queues, deliveries).dom() == queues.dom(),
        forall|id: u16|
            queues.contains_key(id) ==> #[trigger] delivered(queues, deliveries)[id] == if targets(
                deliveries,
            ).contains(id) {
                queues[id].push(cmd)
            } else {
                queues[id]
            },
    decreases deliveries.len(),
{
    if deliveries.len() > 0 {
        let earlier = deliveries.drop_last();
        let last = deliveries.last();
        let n = deliveries.len() - 1;
        assert(targets(earlier) =~= targets(deliveries).drop_last());
        assert(targets(deliveries)[n] == last.devid);
        assert forall|i: int| 0 <= i < earlier.len() implies (#[trigger] earlier[i]).msg@ == cmd
            && queues.contains_key(earlier[i].devid) by {
            assert(earlier[i] == deliveries[i]);
        }
        lemma_delivered(queues, earlier, cmd);
        let before = delivered(queues, earlier);
        assert(queues.contains_key(deliveries[n].devid));
        assert(before.dom().contains(last.devid));
        assert(!targets(earlier).contains(last.devid)) by {
            if targets(earlier).contains(last.devid) {
                let k = choose|k: int| 0 <= k < targets(earlier).len() && targets(earlier)[k]
                    == last.devid;
                assert(targets(deliveries)[k] == targets(deliveries)[n]);
            }
        }
        let after = delivered(queues, deliveries);
        assert(after.dom() =~= queues.dom());
        assert forall|id: u16| queues.contains_key(id) implies #[trigger] after[id] == if targets(
            deliveries,
        ).contains(id) {
            queues[id].push(cmd)
        } else {
            queues[id]
        } by {
            if id == last.devid {
                assert(targets(deliveries)[n] == id);
            } else if targets(earlier).contains(id) {
                let k = choose|k: int| 0 <= k < targets(earlier).len() && targets(earlier)[k] == id;
                assert(targets(deliveries)[k] == id);
            } else if targets(deliveries).contains(id) {
                let k = choose|k: int| 0 <= k < targets(deliveries).len() && targets(
                    deliveries,
                )[k] == id;
                assert(targets(earlier)[k] == id);
            }
        }
    }
}

/// A broadcast with `N` registered devices enqueues exactly `N` commands:
/// what [`DeckHub::handle_broadcast`] returns has one delivery for each
/// registered device, and carrying the deliveries out appends the command
/// once to the outbound queue of each registered device and to no other
/// queue, whatever the command is.
pub proof fn lemma_broadcast_enqueues_once_per_device(
    queues: Map<u16, Seq<Command>>,
    devices: Set<u16>,
    deliveries: Seq<Delivery>,
    cmd: Command,
)
    requires
        reaches(deliveries, devices, cmd),
        devices.subset_of(queues.dom()),
    ensures
        deliveries.len() == devices.len(),
        delivered(queues, deliveries).dom() == queues.dom(),
        forall|id: u16|
            devices.contains(id) ==> #[trigger] delivered(queues, deliveries)[id] == queues[id].push(
                cmd,
            ),
        forall|id: u16|
            queues.contains_key(id) && !devices.contains(id) ==> #[trigger] delivered(
                queues,
                deliveries,
            )[id] == queues[id],
{
    assert forall|i: int| 0 <= i < deliveries.len() implies queues.contains_key(
        (#[trigger] deliveries[i]).devid,
    ) by {
        assert(targets(deliveries)[i] == deliveries[i].devid);
        assert(targets(deliveries).to_set().contains(deliveries[i].devid));
    }
    lemma_delivered(queues, deliveries, cmd);
    assert forall|id: u16| devices.contains(id) implies targets(deliveries).contains(id) by {
        assert(targets(deliveries).to_set().contains(id));
    }
    assert forall|id: u16| !devices.contains(id) implies !targets(deliveries).contains(id) by {
        if targets(deliveries).contains(id) {
            assert(targets(deliveries).to_set().contains(id));
        }
    }
}

/// The registry after a run of registration requests, none of which is
/// followed by a removal: what [`DeckHub::handle_connect`] makes of the
/// registry, request by request.
pub open spec fn registered_after(devices: Set<u16>, requests: Seq<u16>) -> Set<u16>
    decreases requests.len(),
{
    if requests.len() == 0 {
        devices
    } else {
        registered_after(devices, requests.drop_last()).insert(requests.last())
    }
}

/// Every device that asked to be registered is in the registry afterwards.
proof fn lemma_request_registers(devices: Set<u16>, requests: Seq<u16>, i: int)
    requires
        0 <= i < requests.len(),
    ensures
        registered_after(devices, requests).contains(requests[i]),
    decreases requests.len(),
{
    if i < requests.len() - 1 {
        lemma_request_registers(devices, requests.drop_last(), i);
    }
}

/// However many devices ask to be registered, and in whatever order, a
/// device id is accepted at most once as long as it stays registered: of
/// two requests for the same id with no removal in between, the second
/// finds the id in the registry and is refused.
pub proof fn lemma_second_registration_refused(
    devices: Set<u16>,
    requests: Seq<u16>,
    i: int,
    j: int,
)
    requires
        0 <= i < j < requests.len(),
        requests[i] == requests[j],
    ensures
        registered_after(devices, requests.take(j)).contains(requests[j]),
{
    lemma_request_registers(devices, requests.take(j), i);
}

} // verus!
