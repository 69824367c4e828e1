//! The per-device actor: the commands a device accepts, the outbound queue
//! that buffers them between two poll cycles, and the decisions of the poll
//! loop itself.
//!
//! The actor never touches the hardware. The loop that owns the device hands
//! every read outcome to [`DeckActor::handle_read`], turns each drained batch
//! into hardware operations with [`DeckActor::plan_tasks`], and reports an
//! operation that failed to [`DeckActor::handle_failure`].

use vstd::prelude::*;
use vstd::string::*;

pub use crate::deckinterface::{ButtonChange, ButtonState};
use crate::hub::Disconnect;

verus! {

/// A command for a device.
#[derive(Debug, PartialEq, Eq)]
pub enum MsgType {
    Ping(usize),
    BrightnessChange(u8),
    SetImage(u8, String),
    Reset,
}

/// The mathematical value of a [`MsgType`].
pub ghost enum Command {
    Ping(usize),
    BrightnessChange(u8),
    SetImage(u8, Seq<char>),
    Reset,
}

impl View for MsgType {
    type V = Command;

    open spec fn view(&self) -> Command {
        match self {
            MsgType::Ping(n) => Command::Ping(*n),
            MsgType::BrightnessChange(v) => Command::BrightnessChange(*v),
            MsgType::SetImage(key, path) => Command::SetImage(*key, path@),
            MsgType::Reset => Command::Reset,
        }
    }
}

impl Clone for MsgType {
    fn clone(&self) -> (copy: Self)
        ensures
            copy@ == self@,
    {
        match self {
            MsgType::Ping(n) => MsgType::Ping(*n),
            MsgType::BrightnessChange(v) => MsgType::BrightnessChange(*v),
            MsgType::SetImage(key, path) => MsgType::SetImage(*key, path.clone()),
            MsgType::Reset => MsgType::Reset,
        }
    }
}

/// The values of a sequence of commands, in order.
pub open spec fn commands(msgs: Seq<MsgType>) -> Seq<Command> {
    msgs.map_values(|m: MsgType| m@)
}

/// Request to append one command to an outbound queue.
#[derive(Debug, PartialEq, Eq)]
pub struct WriteMsg(pub MsgType);

impl Clone for WriteMsg {
    fn clone(&self) -> (copy: Self)
        ensures
            copy.0@ == self.0@,
    {
        WriteMsg(self.0.clone())
    }
}

/// Request to fetch and clear an outbound queue.
#[derive(Debug, Clone, Copy, PartialEq, Eq, Structural)]
pub struct GetTasks();

/// A liveness probe carrying a sequence number.
#[derive(Debug, Clone, Copy, PartialEq, Eq, Structural)]
pub struct Ping(pub usize);

/// The outbound queue of one device: commands wait here, in arrival order,
/// until the poll loop drains them.
#[derive(Debug)]
pub struct WriterActor {
    action: Vec<MsgType>,
}

impl View for WriterActor {
    type V = Seq<Command>;

    closed spec fn view(&self) -> Seq<Command> {
        commands(self.action@)
    }
}

impl WriterActor {
    /// An empty queue.
    pub fn new() -> (queue: Self)
        ensures
            queue@ == Seq::<Command>::empty(),
    {
        WriterActor { action: Vec::new() }
    }

    /// Appends the command behind everything already waiting.
    pub fn handle_write(&mut self, msg: WriteMsg)
        ensures
            final(self)@ == old(self)@.push(msg.0@),
    {
        let ghost before = self.action@;
        self.action.push(msg.0);
        assert(commands(self.action@) =~= commands(before).push(msg.0@));
    }

    /// Hands out everything that waits, oldest first, and leaves the queue
    /// empty.
    pub fn handle_get_tasks(&mut self, _msg: GetTasks) -> (tasks: Vec<MsgType>)
        ensures
            commands(tasks@) == old(self)@,
            final(self)@ == Seq::<Command>::empty(),
    {
        let mut tasks: Vec<MsgType> = Vec::new();
        core::mem::swap(&mut self.action, &mut tasks);
        assert(commands(self.action@) =~= Seq::<Command>::empty());
        tasks
    }

    /// The number of commands that wait.
    pub fn len(&self) -> (n: usize)
        ensures
            n == self@.len(),
    {
        self.action.len()
    }
}

/// What one poll of the hardware produced.
#[derive(Debug, PartialEq, Eq)]
pub enum ReadOutcome {
    /// A snapshot with one byte per button, `1` for a button held down.
    Buttons(Vec<u8>),
    /// Nothing arrived within the timeout.
    NoData,
    /// Any other failure of the transport.
    Failed,
}

/// What the poll loop has to do after a read.
#[derive(Debug, PartialEq, Eq)]
pub enum Polled {
    /// Report these changes to the hub, in this order, and carry on.
    Changes(Vec<ButtonChange>),
    /// The device is lost: report the disconnect to the hub and end the loop.
    Lost(Disconnect),
    /// The actor had already stopped; there is nothing to report.
    Halted,
}

/// One write to the hardware.
#[derive(Debug, PartialEq, Eq)]
pub enum DeviceOp {
    SetBrightness(u8),
    /// Load the image file at the path and show it on the button.
    WriteImage(u8, String),
    Reset,
}

/// The mathematical value of a [`DeviceOp`].
pub ghost enum Operation {
    SetBrightness(u8),
    WriteImage(u8, Seq<char>),
    Reset,
}

impl View for DeviceOp {
    type V = Operation;

    open spec fn view(&self) -> Operation {
        match self {
            DeviceOp::SetBrightness(v) => Operation::SetBrightness(*v),
            DeviceOp::WriteImage(key, path) => Operation::WriteImage(*key, path@),
            DeviceOp::Reset => Operation::Reset,
        }
    }
}

/// The values of a sequence of hardware operations, in order.
pub open spec fn operations(ops: Seq<DeviceOp>) -> Seq<Operation> {
    ops.map_values(|op: DeviceOp| op@)
}

/// The state a button byte of a snapshot stands for.
pub open spec fn state_of(byte: u8) -> ButtonState {
    if byte == 1 {
        ButtonState::Pressed
    } else {
        ButtonState::Released
    }
}

/// The changes among the first `n` buttons of two snapshots: one entry for
/// every index at which the snapshots differ, in ascending order of index,
/// carrying the state the button has in `curr`.
pub open spec fn changes_below(prev: Seq<u8>, curr: Seq<u8>, n: nat) -> Seq<ButtonChange>
    decreases n,
{
    if n == 0 {
        Seq::empty()
    } else {
        let i = (n - 1) as nat;
        let earlier = changes_below(prev, curr, i);
        if prev[i as int] != curr[i as int] {
            earlier.push(ButtonChange { btn: i as usize, state: state_of(curr[i as int]) })
        } else {
            earlier
        }
    }
}

/// The changes between two snapshots. Buttons that only one of the two
/// snapshots covers are not compared.
pub open spec fn button_changes(prev: Seq<u8>, curr: Seq<u8>) -> Seq<ButtonChange> {
    changes_below(
        prev,
        curr,
        if prev.len() <= curr.len() {
            prev.len()
        } else {
            curr.len()
        },
    )
}

/// Whether two snapshots differ at a button.
pub open spec fn differ_at(prev: Seq<u8>, curr: Seq<u8>, i: int) -> bool {
    prev[i] != curr[i]
}

/// Whether a sequence of changes is a faithful account of how the first
/// `n` buttons differ between two snapshots: every entry names a button
/// below `n` at which the snapshots differ and gives its state in `curr`;
/// the entries are in ascending order of button; and no button at which the
/// snapshots differ is left out.
pub open spec fn accounts_for(changes: Seq<ButtonChange>, prev: Seq<u8>, curr: Seq<u8>, n: nat) -> bool {
    &&& forall|k: int|
        0 <= k < changes.len() ==> {
            let change = #[trigger] changes[k];
            &&& change.btn < n
            &&& prev[change.btn as int] != curr[change.btn as int]
            &&& change.state == state_of(curr[change.btn as int])
        }
    &&& forall|k: int, l: int|
        0 <= k < l < changes.len() ==> (#[trigger] changes[k]).btn < (#[trigger] changes[l]).btn
    &&& forall|i: int|
        0 <= i < n && #[trigger] differ_at(prev, curr, i) ==> exists|k: int|
            0 <= k < changes.len() && (#[trigger] changes[k]).btn == i
}

/// The changes among the first `n` buttons are a faithful account of how
/// those buttons differ.
pub proof fn lemma_changes_below(prev: Seq<u8>, curr: Seq<u8>, n: nat)
    requires
        n <= prev.len(),
        n <= curr.len(),
        n <= usize::MAX,
    ensures
        accounts_for(changes_below(prev, curr, n), prev, curr, n),
    decreases n,
{
    if n > 0 {
        let i = (n - 1) as nat;
        let earlier = changes_below(prev, curr, i);
        let all = changes_below(prev, curr, n);
        lemma_changes_below(prev, curr, i);
        assert(accounts_for(earlier, prev, curr, i));
        if prev[i as int] != curr[i as int] {
            let added = ButtonChange { btn: i as usize, state: state_of(curr[i as int]) };
            assert(all == earlier.push(added));
            assert forall|k: int| 0 <= k < all.len() implies ({
                let change = #[trigger] all[k];
                &&& change.btn < n
                &&& prev[change.btn as int] != curr[change.btn as int]
                &&& change.state == state_of(curr[change.btn as int])
            }) by {
                if k < earlier.len() {
                    assert(all[k] == earlier[k]);
                }
            }
            assert forall|k: int, l: int| 0 <= k < l < all.len() implies (#[trigger] all[k]).btn < (
            #[trigger] all[l]).btn by {
                assert(all[k] == earlier[k]);
                if l < earlier.len() {
                    assert(all[l] == earlier[l]);
                }
            }
            assert forall|j: int| 0 <= j < n && #[trigger] differ_at(prev, curr, j) implies exists|
                k: int,
            | 0 <= k < all.len() && (#[trigger] all[k]).btn == j by {
                if j < i {
                    let k = choose|k: int|
                        0 <= k < earlier.len() && (#[trigger] earlier[k]).btn == j;
                    assert(all[k] == earlier[k]);
                } else {
                    assert(all[all.len() - 1].btn == j);
                }
            }
        } else {
            assert(all == earlier);
            assert forall|j: int| 0 <= j < n && #[trigger] differ_at(prev, curr, j) implies exists|
                k: int,
            | 0 <= k < all.len() && (#[trigger] all[k]).btn == j by {
                assert(j < i);
            }
        }
    }
}

/// What [`DeckActor::state_change`] returns is a faithful account of how
/// the buttons that both snapshots cover differ.
pub proof fn lemma_button_changes(prev: Seq<u8>, curr: Seq<u8>)
    requires
        prev.len() <= usize::MAX || curr.len() <= usize::MAX,
    ensures
        accounts_for(
            button_changes(prev, curr),
            prev,
            curr,
            if prev.len() <= curr.len() {
                prev.len()
            } else {
                curr.len()
            },
        ),
{
    lemma_changes_below(
        prev,
        curr,
        if prev.len() <= curr.len() {
            prev.len()
        } else {
            curr.len()
        },
    );
}

/// The directory, relative to the working directory, that holds the images.
pub open spec fn image_dir() -> Seq<char> {
    "../images/"@
}

/// The hardware operation a command asks for, if any.
pub open spec fn operation_for(cmd: Command) -> Option<Operation> {
    match cmd {
        Command::Ping(_) => None,
        Command::BrightnessChange(v) => Some(Operation::SetBrightness(v)),
        Command::SetImage(key, path) => Some(Operation::WriteImage(key, image_dir() + path)),
        Command::Reset => Some(Operation::Reset),
    }
}

/// The hardware operations for a batch of commands, in the order of the
/// commands.
pub open spec fn planned(cmds: Seq<Command>) -> Seq<Operation>
    decreases cmds.len(),
{
    if cmds.len() == 0 {
        Seq::empty()
    } else {
        let earlier = planned(cmds.drop_last());
        match operation_for(cmds.last()) {
            Some(op) => earlier.push(op),
            None => earlier,
        }
    }
}

/// Whether the failure of an operation is fatal for its device. Only a
/// failed image write is; a failed brightness or reset write is ignored.
pub open spec fn is_fatal(op: Operation) -> bool {
    op is WriteImage
}

/// The number of buttons the first snapshot is compared against.
pub const INITIAL_BUTTONS: usize = 16;

/// How long one read of the hardware may wait for data, in milliseconds.
pub const READ_TIMEOUT_MILLIS: u64 = 100;

/// How long the poll loop rests between two rounds, in nanoseconds.
pub const IDLE_NANOS: u64 = 100;

/// The poll state of one device.
#[derive(Debug)]
pub struct DeckActor {
    devid: u16,
    prev_btn_state: Vec<u8>,
    running: bool,
}

/// The mathematical value of a [`DeckActor`].
pub ghost struct ActorState {
    pub devid: u16,
    pub prev: Seq<u8>,
    pub running: bool,
}

impl View for DeckActor {
    type V = ActorState;

    closed spec fn view(&self) -> ActorState {
        ActorState { devid: self.devid, prev: self.prev_btn_state@, running: self.running }
    }
}

impl DeckActor {
    /// A running actor for the device, with every button taken as released.
    pub fn new(devid: u16) -> (actor: Self)
        ensures
            actor@.devid == devid,
            actor@.running,
            actor@.prev == Seq::new(INITIAL_BUTTONS as nat, |i: int| 0u8),
    {
        let mut prev_btn_state: Vec<u8> = Vec::new();
        let mut i: usize = 0;
        while i < INITIAL_BUTTONS
            invariant
                i <= INITIAL_BUTTONS,
                prev_btn_state@ == Seq::new(i as nat, |i: int| 0u8),
            decreases INITIAL_BUTTONS - i,
        {
            prev_btn_state.push(0);
            i += 1;
            assert(prev_btn_state@ =~= Seq::new(i as nat, |i: int| 0u8));
        }
        DeckActor { devid, prev_btn_state, running: true }
    }

    /// The device this actor polls.
    pub fn devid(&self) -> (devid: u16)
        ensures
            devid == self@.devid,
    {
        self.devid
    }

    /// Whether the poll loop is still alive.
    pub fn is_running(&self) -> (running: bool)
        ensures
            running == self@.running,
    {
        self.running
    }

    /// Compares two snapshots button by button.
    pub fn state_change(prev: &[u8], curr: &Vec<u8>) -> (changes: Vec<ButtonChange>)
        ensures
            changes@ == button_changes(prev@, curr@),
    {
        let n = if prev.len() <= curr.len() {
            prev.len()
        } else {
            curr.len()
        };
        let mut changes: Vec<ButtonChange> = Vec::new();
        let mut i: usize = 0;
        while i < n
            invariant
                i <= n,
                n <= prev@.len(),
                n <= curr@.len(),
                changes@ == changes_below(prev@, curr@, i as nat),
            decreases n - i,
        {
            if prev[i] != curr[i] {
                let state = if curr[i] == 1 {
                    ButtonState::Pressed
                } else {
                    ButtonState::Released
                };
                changes.push(ButtonChange::new(i, state));
            }
            i += 1;
        }
        changes
    }

    /// Wraps a command that arrived for the device into the request that
    /// appends it to the device's outbound queue.
    pub fn handle_msg(&self, msg: MsgType) -> (write: WriteMsg)
        ensures
            write.0@ == msg@,
    {
        WriteMsg(msg)
    }

    /// Decides what follows from one read of the hardware.
    ///
    /// A snapshot is compared with the previous one and replaces it. A read
    /// that timed out changes nothing. Any other failure stops the actor and
    /// asks for the hub to be told, once; a stopped actor stays stopped and
    /// reports nothing more.
    pub fn handle_read(&mut self, outcome: ReadOutcome) -> (polled: Polled)
        ensures
            final(self)@.devid == old(self)@.devid,
            !old(self)@.running ==> polled is Halted && final(self)@ == old(self)@,
            old(self)@.running ==> match outcome {
                ReadOutcome::Buttons(btns) => {
                    &&& polled matches Polled::Changes(changes)
                    &&& changes@ == button_changes(old(self)@.prev, btns@)
                    &&& final(self)@.prev == btns@
                    &&& final(self)@.running
                },
                ReadOutcome::NoData => {
                    &&& polled matches Polled::Changes(changes)
                    &&& changes@.len() == 0
                    &&& final(self)@ == old(self)@
                },
                ReadOutcome::Failed => {
                    &&& polled == Polled::Lost(Disconnect(old(self)@.devid))
                    &&& !final(self)@.running
                    &&& final(self)@.prev == old(self)@.prev
                },
            },
    {
        if !self.running {
            return Polled::Halted;
        }
        match outcome {
            ReadOutcome::Buttons(btns) => {
                let changes = Self::state_change(self.prev_btn_state.as_slice(), &btns);
                self.prev_btn_state = btns;
                Polled::Changes(changes)
            },
            ReadOutcome::NoData => Polled::Changes(Vec::new()),
            ReadOutcome::Failed => {
                self.running = false;
                Polled::Lost(Disconnect(self.devid))
            },
        }
    }

    /// The hardware operation for one command, if it asks for one.
    pub fn plan_task(task: &MsgType) -> (op: Option<DeviceOp>)
        ensures
            match op {
                Some(op) => operation_for(task@) == Some(op@),
                None => operation_for(task@) is None,
            },
    {
        match task {
            MsgType::Ping(_) => None,
            MsgType::BrightnessChange(v) => Some(DeviceOp::SetBrightness(*v)),
            MsgType::SetImage(key, path) => {
                let mut full = String::from_str("../images/");
                full.append(path.as_str());
                Some(DeviceOp::WriteImage(*key, full))
            },
            MsgType::Reset => Some(DeviceOp::Reset),
        }
    }

    /// The hardware operations for a drained batch, in the order of the
    /// batch. A stopped actor plans nothing.
    pub fn plan_tasks(&self, tasks: &Vec<MsgType>) -> (ops: Vec<DeviceOp>)
        ensures
            self@.running ==> operations(ops@) == planned(commands(tasks@)),
            !self@.running ==> ops@.len() == 0,
    {
        let mut ops: Vec<DeviceOp> = Vec::new();
        if !self.running {
            return ops;
        }
        let ghost all = commands(tasks@);
        let mut i: usize = 0;
        while i < tasks.len()
            invariant
                i <= tasks.len(),
                all == commands(tasks@),
                operations(ops@) == planned(all.take(i as int)),
            decreases tasks.len() - i,
        {
            let ghost before = ops@;
            proof {
                assert(all.take(i + 1).drop_last() =~= all.take(i as int));
                assert(all.take(i + 1).last() == tasks[i as int]@);
            }
            match Self::plan_task(&tasks[i]) {
                Some(op) => {
                    ops.push(op);
                    assert(operations(ops@) =~= operations(before).push(op@));
                },
                None => {},
            }
            i += 1;
        }
        assert(all.take(tasks.len() as int) =~= all);
        ops
    }

    /// Decides what follows from an operation that the hardware refused.
    ///
    /// A failed image write stops a running actor and asks for the hub to be
    /// told; every other failure, and every failure on a stopped actor, is
    /// passed over.
    pub fn handle_failure(&mut self, op: &DeviceOp) -> (lost: Option<Disconnect>)
        ensures
            final(self)@.devid == old(self)@.devid,
            final(self)@.prev == old(self)@.prev,
            old(self)@.running && is_fatal(op@) ==> {
                &&& lost == Some(Disconnect(old(self)@.devid))
                &&& !final(self)@.running
            },
            !(old(self)@.running && is_fatal(op@)) ==> {
                &&& lost is None
                &&& final(self)@ == old(self)@
            },
    {
        match op {
            DeviceOp::WriteImage(_, _) => {
                if self.running {
                    self.running = false;
                    Some(Disconnect(self.devid))
                } else {
                    None
                }
            },
            _ => None,
        }
    }
}

} // verus!
