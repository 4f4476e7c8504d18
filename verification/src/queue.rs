use vstd::prelude::*;

use crate::message::{Message, MsgModel};

verus! {

/// What a bounded subscriber buffer holds after one more message is queued:
/// the message is appended at the tail; if the buffer is already at capacity,
/// the oldest undelivered message is dropped first. The publisher is never
/// blocked and never sees an error.
pub open spec fn enqueue(q: Seq<MsgModel>, m: MsgModel, cap: nat) -> Seq<MsgModel> {
    if q.len() >= cap {
        q.drop_first().push(m)
    } else {
        q.push(m)
    }
}

/// One subscriber's buffer of undelivered messages, oldest first.
pub struct MsgQueue {
    buf: Vec<Message>,
}

impl View for MsgQueue {
    type V = Seq<MsgModel>;

    closed spec fn view(&self) -> Seq<MsgModel> {
        self.buf@.map_values(|m: Message| m@)
    }
}

impl MsgQueue {
    pub fn new() -> (q: MsgQueue)
        ensures
            q@ == Seq::<MsgModel>::empty(),
    {
        let q = MsgQueue { buf: Vec::new() };
        proof {
            assert(q@ =~= Seq::<MsgModel>::empty());
        }
        q
    }

    pub fn len(&self) -> (n: usize)
        ensures
            n == self@.len(),
    {
        self.buf.len()
    }

    pub fn is_empty(&self) -> (b: bool)
        ensures
            b == (self@.len() == 0),
    {
        self.buf.len() == 0
    }

    /// Queues one message under the drop-oldest overflow policy.
    pub fn enqueue_bounded(&mut self, m: Message, cap: usize)
        requires
            cap >= 1,
            old(self)@.len() <= cap,
        ensures
            final(self)@ == enqueue(old(self)@, m@, cap as nat),
            final(self)@.len() <= cap,
    {
        if self.buf.len() >= cap {
            let _dropped = self.buf.remove(0);
            proof {
                assert(self@ =~= old(self)@.drop_first());
            }
        }
        let ghost mid = self@;
        self.buf.push(m);
        proof {
            assert(self@ =~= mid.push(m@));
        }
    }

    /// Removes and returns the oldest undelivered message, if any.
    pub fn pop_front(&mut self) -> (m: Option<Message>)
        ensures
            old(self)@.len() == 0 ==> m is None && final(self)@ == old(self)@,
            old(self)@.len() > 0 ==> m is Some && m->Some_0@ == old(self)@[0]
                && final(self)@ == old(self)@.drop_first(),
    {
        if self.buf.len() == 0 {
            None
        } else {
            let m = self.buf.remove(0);
            proof {
                assert(self@ =~= old(self)@.drop_first());
            }
            Some(m)
        }
    }

    /// Discards everything the buffer still holds.
    pub fn clear(&mut self)
        ensures
            final(self)@ == Seq::<MsgModel>::empty(),
    {
        self.buf = Vec::new();
        proof {
            assert(self@ =~= Seq::<MsgModel>::empty());
        }
    }
}

} // verus!
