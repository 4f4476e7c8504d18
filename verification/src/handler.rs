use vstd::prelude::*;

use crate::bus::{lemma_publish_reaches_all, BusModel};
use crate::message::{Message, MsgModel};

verus! {

/// Hard cap on one line's length in bytes, terminator included. A client
/// that keeps sending without ever terminating its line is cut off as
/// connection-fatal instead of growing its buffer without bound.
pub const MAX_LINE_BYTES: usize = 8192;

/// What the ingress loop does after one buffered line read on its socket.
pub enum IngressAction {
    /// A complete line arrived: publish this message on the bus.
    Publish(Message),
    /// Zero bytes were read — the peer closed its write side: the handler
    /// terminates normally.
    Disconnect,
    /// The pending line outgrew the cap: connection-fatal.
    LineTooLong,
}

/// The ingress decision: one step of the loop bridging a client's socket to
/// the bus. `bytes_read` is what the buffered line read returned and `line`
/// the bytes it accumulated, terminator included; `me` is this connection's
/// identity, stamped as origin on everything it publishes.
pub fn ingress_step(bytes_read: usize, line: Vec<u8>, me: u64) -> (a: IngressAction)
    ensures
        bytes_read == 0 ==> a is Disconnect,
        bytes_read > 0 && line@.len() > MAX_LINE_BYTES ==> a is LineTooLong,
        bytes_read > 0 && line@.len() <= MAX_LINE_BYTES ==> a is Publish && a->Publish_0@
            == (MsgModel { text: line@, origin: me }),
{
    if bytes_read == 0 {
        IngressAction::Disconnect
    } else if line.len() > MAX_LINE_BYTES {
        IngressAction::LineTooLong
    } else {
        IngressAction::Publish(Message::new(line, me))
    }
}

/// What the egress loop forwards for one bus message: the line's bytes when
/// the message came from another connection, nothing when this connection is
/// itself the origin. The bus publishes to every subscriber, the sender's
/// own copy included; suppression happens here, at delivery.
pub open spec fn egress_forward(m: MsgModel, me: u64) -> Option<Seq<u8>> {
    if m.origin == me {
        None
    } else {
        Some(m.text)
    }
}

/// The egress decision: one step of the loop bridging the bus to a client's
/// socket. Returns the bytes to write on the socket, verbatim, or nothing
/// when the message is the connection's own and is silently discarded.
pub fn egress_step(m: Message, me: u64) -> (r: Option<Vec<u8>>)
    ensures
        (r is Some) == (egress_forward(m@, me) is Some),
        r is Some ==> r->Some_0@ == egress_forward(m@, me)->Some_0,
{
    if m.origin() != me {
        Some(m.into_text())
    } else {
        None
    }
}

/// Self-echo suppression: a message originating at connection `a` is
/// forwarded verbatim to any connection with a different identity and never
/// back to `a` itself.
pub proof fn lemma_self_echo_suppression(m: MsgModel, a: u64, b: u64)
    requires
        m.origin == a,
        a != b,
    ensures
        egress_forward(m, b) == Some(m.text),
        egress_forward(m, a) is None,
{
}

/// The relay law, end to end at the model level: a line published by
/// connection `a` is queued for every live subscriber of the bus, and when
/// it reaches a connection's egress, that connection forwards its bytes
/// verbatim exactly when its identity differs from `a` — so every other
/// connection receives the line and `a` never receives its own.
pub proof fn lemma_relay_fanout(b: BusModel, text: Seq<u8>, a: u64, id: u64)
    requires
        b.wf(),
    ensures
        b.publish((MsgModel { text: text, origin: a })).wf(),
        forall|i: int|
            0 <= i < b.subs.len() && b.subs[i].live ==> (#[trigger] b.publish(
                (MsgModel { text: text, origin: a }),
            ).subs[i]).queue.last() == (MsgModel { text: text, origin: a }),
        id != a ==> egress_forward((MsgModel { text: text, origin: a }), id) == Some(text),
        egress_forward((MsgModel { text: text, origin: a }), a) is None,
{
    lemma_publish_reaches_all(b, MsgModel { text: text, origin: a });
}

} // verus!
