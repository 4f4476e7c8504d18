use vstd::prelude::*;

verus! {

/// The mathematical model of one relayed message: the bytes of one complete
/// line (terminator included) and the identity of the connection it came from.
pub ghost struct MsgModel {
    pub text: Seq<u8>,
    pub origin: u64,
}

/// One broadcast message: a complete line of bytes, terminator included,
/// tagged with the identity of the connection that sent it. The origin is
/// used purely as a same-origin filter at delivery time.
pub struct Message {
    text: Vec<u8>,
    origin: u64,
}

impl View for Message {
    type V = MsgModel;

    closed spec fn view(&self) -> MsgModel {
        MsgModel { text: self.text@, origin: self.origin }
    }
}

impl Message {
    pub fn new(text: Vec<u8>, origin: u64) -> (m: Message)
        ensures
            m@ == (MsgModel { text: text@, origin: origin }),
    {
        Message { text, origin }
    }

    pub fn origin(&self) -> (o: u64)
        ensures
            o == self@.origin,
    {
        self.origin
    }

    pub fn text(&self) -> (t: &Vec<u8>)
        ensures
            t@ == self@.text,
    {
        &self.text
    }

    /// Hands the line's bytes out, to be written on a subscriber's socket.
    pub fn into_text(self) -> (t: Vec<u8>)
        ensures
            t@ == self@.text,
    {
        self.text
    }

    /// A verbatim copy: the bus hands the same line to many subscribers,
    /// each of which must see exactly the bytes that were sent.
    pub fn duplicate(&self) -> (m: Message)
        ensures
            m@ == self@,
    {
        let mut text: Vec<u8> = Vec::new();
        let mut i: usize = 0;
        while i < self.text.len()
            invariant
                i <= self.text.len(),
                text@ == self.text@.subrange(0, i as int),
            decreases self.text.len() - i,
        {
            text.push(self.text[i]);
            i = i + 1;
            proof {
                assert(text@ =~= self.text@.subrange(0, i as int));
            }
        }
        proof {
            assert(text@ =~= self.text@);
        }
        Message { text, origin: self.origin }
    }
}

} // verus!
