//! The flood worker as a state machine: what to do next, given what the last
//! step on the socket came to. The socket itself belongs to the caller.

use vstd::prelude::*;
use crate::encode::CommandBuffer;

verus! {

/// Where a worker stands.
#[derive(Clone, Copy, Debug, PartialEq, Eq, Structural)]
pub enum WorkerState {
    /// The single connection attempt has not been answered yet.
    Connecting,
    /// The connection stands and the buffer is being written over and over.
    Flooding,
    /// The connection attempt failed; the worker has ended on its own.
    Finished,
    /// A write failed; the worker has broken off.
    Aborted,
}

/// What the socket reported.
#[derive(Clone, Copy, Debug, PartialEq, Eq, Structural)]
pub enum WorkerEvent {
    Connected,
    ConnectFailed,
    BufferWritten,
    WriteFailed,
}

/// What the caller has to do next.
#[derive(Clone, Copy, Debug, PartialEq, Eq, Structural)]
pub enum WorkerAction {
    /// Open the connection; this is asked for once, at the start.
    Connect,
    /// Write the whole buffer to the socket.
    WriteBuffer,
    /// Report the failed connection and end this worker; others go on.
    ReportAndExit,
    /// End this worker abnormally.
    Abort,
}

/// The transition table. An event that the state does not wait for has no
/// entry.
pub open spec fn transition(state: WorkerState, event: WorkerEvent) -> Option<
    (WorkerState, WorkerAction),
> {
    match (state, event) {
        (WorkerState::Connecting, WorkerEvent::Connected) => Some(
            (WorkerState::Flooding, WorkerAction::WriteBuffer),
        ),
        (WorkerState::Connecting, WorkerEvent::ConnectFailed) => Some(
            (WorkerState::Finished, WorkerAction::ReportAndExit),
        ),
        (WorkerState::Flooding, WorkerEvent::BufferWritten) => Some(
            (WorkerState::Flooding, WorkerAction::WriteBuffer),
        ),
        (WorkerState::Flooding, WorkerEvent::WriteFailed) => Some(
            (WorkerState::Aborted, WorkerAction::Abort),
        ),
        _ => None,
    }
}

/// The state after a run of events, each of which must be waited for when it
/// comes.
pub open spec fn run(state: WorkerState, events: Seq<WorkerEvent>) -> Option<WorkerState>
    decreases events.len(),
{
    if events.len() == 0 {
        Some(state)
    } else {
        match run(state, events.drop_last()) {
            Some(before) => match transition(before, events.last()) {
                Some((after, _)) => Some(after),
                None => None,
            },
            None => None,
        }
    }
}

/// One connection and the buffer sent over it.
#[derive(Debug)]
pub struct FloodWorker {
    address: String,
    buffer: CommandBuffer,
    state: WorkerState,
}

impl FloodWorker {
    /// The address the worker connects to.
    pub closed spec fn spec_address(&self) -> Seq<char> {
        self.address@
    }

    /// The bytes the worker sends.
    pub closed spec fn spec_buffer(&self) -> Seq<u8> {
        self.buffer@
    }

    /// The state the worker is in.
    pub closed spec fn spec_state(&self) -> WorkerState {
        self.state
    }

    /// A worker that has yet to connect.
    pub fn new(address: String, buffer: CommandBuffer) -> (worker: FloodWorker)
        ensures
            worker.spec_address() == address@,
            worker.spec_buffer() == buffer@,
            worker.spec_state() == WorkerState::Connecting,
    {
        FloodWorker { address, buffer, state: WorkerState::Connecting }
    }

    /// The address to connect to.
    pub fn address(&self) -> (address: &String)
        ensures
            address@ == self.spec_address(),
    {
        &self.address
    }

    /// The buffer to send.
    pub fn buffer(&self) -> (buffer: &CommandBuffer)
        ensures
            buffer@ == self.spec_buffer(),
    {
        &self.buffer
    }

    /// The state the worker is in.
    pub fn state(&self) -> (state: WorkerState)
        ensures
            state == self.spec_state(),
    {
        self.state
    }

    /// The action a worker begins with.
    pub fn start(&self) -> (action: Option<WorkerAction>)
        ensures
            action == if self.spec_state() == WorkerState::Connecting {
                Some(WorkerAction::Connect)
            } else {
                None::<WorkerAction>
            },
    {
        match self.state {
            WorkerState::Connecting => Some(WorkerAction::Connect),
            _ => None,
        }
    }

    /// Takes in what the socket reported and says what to do next. An event
    /// that the worker does not wait for changes nothing and gives `None`.
    pub fn step(&mut self, event: WorkerEvent) -> (action: Option<WorkerAction>)
        ensures
            final(self).spec_address() == old(self).spec_address(),
            final(self).spec_buffer() == old(self).spec_buffer(),
            match transition(old(self).spec_state(), event) {
                Some((next, act)) => final(self).spec_state() == next && action == Some(act),
                None => final(self).spec_state() == old(self).spec_state() && action.is_none(),
            },
    {
        match (self.state, event) {
            (WorkerState::Connecting, WorkerEvent::Connected) => {
                self.state = WorkerState::Flooding;
                Some(WorkerAction::WriteBuffer)
            },
            (WorkerState::Connecting, WorkerEvent::ConnectFailed) => {
                self.state = WorkerState::Finished;
                Some(WorkerAction::ReportAndExit)
            },
            (WorkerState::Flooding, WorkerEvent::BufferWritten) => Some(WorkerAction::WriteBuffer),
            (WorkerState::Flooding, WorkerEvent::WriteFailed) => {
                self.state = WorkerState::Aborted;
                Some(WorkerAction::Abort)
            },
            _ => None,
        }
    }
}

/// A failed connection ends the worker in order: it is told to report and
/// exit, never to abort, and it takes no further event.
pub proof fn lemma_connect_failure_is_clean(event: WorkerEvent)
    ensures
        transition(WorkerState::Connecting, WorkerEvent::ConnectFailed) == Some(
            (WorkerState::Finished, WorkerAction::ReportAndExit),
        ),
        transition(WorkerState::Finished, event).is_none(),
        transition(WorkerState::Aborted, event).is_none(),
{
}

/// No transition asks to connect: the attempt made at the start is the only
/// one, whatever follows.
pub proof fn lemma_no_reconnect(state: WorkerState, event: WorkerEvent)
    ensures
        transition(state, event) matches Some((_, action)) ==> action != WorkerAction::Connect,
        transition(state, event) matches Some((next, _)) ==> next != WorkerState::Connecting,
{
}

/// The flood has no exit of its own: a write that went through is followed
/// by another, and only a failed write leaves the state.
pub proof fn lemma_flood_only_ends_on_failure(event: WorkerEvent)
    ensures
        transition(WorkerState::Flooding, WorkerEvent::BufferWritten) == Some(
            (WorkerState::Flooding, WorkerAction::WriteBuffer),
        ),
        transition(WorkerState::Flooding, event) matches Some((next, _)) ==> next
            == WorkerState::Flooding || (event == WorkerEvent::WriteFailed && next
            == WorkerState::Aborted),
{
}

/// However many writes go through, the worker keeps flooding.
pub proof fn lemma_flood_goes_on(events: Seq<WorkerEvent>)
    requires
        forall|i: int| 0 <= i < events.len() ==> events[i] == WorkerEvent::BufferWritten,
    ensures
        run(WorkerState::Flooding, events) == Some(WorkerState::Flooding),
    decreases events.len(),
{
    if events.len() > 0 {
        lemma_flood_goes_on(events.drop_last());
    }
}

} // verus!
