use vstd::prelude::*;

verus! {

/// What the listener observed while waiting in its idle state.
pub enum ListenerEvent {
    /// A connection was accepted, with the identity chosen for it.
    Accepted(u64),
    /// Accepting failed: unrecoverable at the listener.
    AcceptFailed,
}

/// What the listener does next.
pub enum ListenerAction {
    /// Subscribe the new connection to the bus, then start its handler,
    /// independently of every other handler, and go back to accepting.
    SpawnHandler(u64),
    /// Stop accepting: the process terminates.
    Shutdown,
}

/// One transition of the listener loop. A successful accept hands the new
/// connection off to a fresh handler — whose later failure must never stop
/// the listener — and returns to the idle state; an accept error is treated
/// as fatal for the whole process.
pub fn listener_step(ev: ListenerEvent) -> (a: ListenerAction)
    ensures
        ev is Accepted ==> a is SpawnHandler && a->SpawnHandler_0 == ev->Accepted_0,
        ev is AcceptFailed ==> a is Shutdown,
{
    match ev {
        ListenerEvent::Accepted(id) => ListenerAction::SpawnHandler(id),
        ListenerEvent::AcceptFailed => ListenerAction::Shutdown,
    }
}

} // verus!
