use vstd::prelude::*;
use crate::addr::Addr;

verus! {

/// One response on its way back to a client: the destination client address
/// and the payload bytes exactly as the upstream server sent them.
pub struct MuxMessage {
    pub dest: Addr,
    pub payload: Vec<u8>,
}

impl View for MuxMessage {
    type V = (Addr, Seq<u8>);

    open spec fn view(&self) -> (Addr, Seq<u8>) {
        (self.dest, self.payload@)
    }
}

/// The response multiplexer's inbound queue. Every session's upstream
/// reader feeds it; a single worker drains it and writes each payload to
/// the listening socket addressed to its destination, so the socket never
/// has two concurrent writers. Messages leave in arrival order: the
/// multiplexer introduces no reordering.
pub struct MuxQueue {
    items: Vec<MuxMessage>,
}

impl View for MuxQueue {
    type V = Seq<(Addr, Seq<u8>)>;

    closed spec fn view(&self) -> Seq<(Addr, Seq<u8>)> {
        self.items@.map_values(|m: MuxMessage| m@)
    }
}

impl MuxQueue {
    pub fn new() -> (r: MuxQueue)
        ensures
            r@ == Seq::<(Addr, Seq<u8>)>::empty(),
    {
        let q = MuxQueue { items: Vec::new() };
        proof {
            assert(q@ =~= Seq::<(Addr, Seq<u8>)>::empty());
        }
        q
    }

    pub fn enqueue(&mut self, m: MuxMessage)
        ensures
            final(self)@ == old(self)@.push(m@),
    {
        self.items.push(m);
        proof {
            assert(self@ =~= old(self)@.push(m@));
        }
    }

    /// The multiplexer takes the oldest pending response; arrival order is
    /// service order.
    pub fn dequeue(&mut self) -> (r: Option<MuxMessage>)
        ensures
            old(self)@.len() == 0 ==> r is None && final(self)@ == old(self)@,
            old(self)@.len() > 0 ==> (r matches Some(m)
                && m@ == old(self)@[0]
                && final(self)@ == old(self)@.drop_first()),
    {
        if self.items.len() == 0 {
            None
        } else {
            let m = self.items.remove(0);
            proof {
                assert(self@ =~= old(self)@.drop_first());
            }
            Some(m)
        }
    }

    pub fn len(&self) -> (n: usize)
        ensures
            n == self@.len(),
    {
        self.items.len()
    }
}

} // verus!
