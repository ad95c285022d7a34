use vstd::prelude::*;
use crate::addr::Addr;
use crate::session::Session;
use crate::table::SessionTable;
use crate::expiry::{ExpiryQueue, purge_expired};
use crate::mux::{MuxMessage, MuxQueue};

verus! {

/// A datagram on its way to the upstream server: the fixed upstream
/// destination and the client's payload, byte for byte.
pub struct Forwarded {
    pub dest: Addr,
    pub payload: Vec<u8>,
}

/// The relay as one machine: the Session Table, the Expiry Queue, the
/// Response Multiplexer's queue and the fixed upstream target. In the
/// running process the workers act concurrently from their own threads;
/// here each worker's step is a method on the composed state, which is
/// where the system-wide guarantees — session isolation, teardown and
/// recreation, payload fidelity — are stated.
pub struct Engine {
    upstream: Addr,
    table: SessionTable<Session>,
    expiry: ExpiryQueue,
    responses: MuxQueue,
}

impl Engine {
    /// The one resolved upstream address, shared read-only by every
    /// session.
    pub closed spec fn spec_upstream(&self) -> Addr {
        self.upstream
    }

    /// The sessions the table holds, by client address.
    pub closed spec fn sessions(&self) -> Map<Addr, Session> {
        self.table.as_map()
    }

    /// Addresses awaiting removal from the table.
    pub closed spec fn spec_expiry(&self) -> Seq<Addr> {
        self.expiry@
    }

    /// Responses awaiting the multiplexer, oldest first.
    pub closed spec fn spec_responses(&self) -> Seq<(Addr, Seq<u8>)> {
        self.responses@
    }

    /// Table addresses are unique, and every held session is well formed
    /// and keyed by its own client address.
    pub closed spec fn wf(&self) -> bool {
        &&& self.table.wf()
        &&& forall|a: Addr|
            self.sessions().contains_key(a) ==> (#[trigger] self.sessions()[a]).wf()
                && self.sessions()[a].client == a
    }

    pub fn new(upstream: Addr) -> (r: Engine)
        ensures
            r.wf(),
            r.spec_upstream() == upstream,
            r.sessions() == Map::<Addr, Session>::empty(),
            r.spec_expiry() == Seq::<Addr>::empty(),
            r.spec_responses() == Seq::<(Addr, Seq<u8>)>::empty(),
    {
        Engine {
            upstream,
            table: SessionTable::new(),
            expiry: ExpiryQueue::new(),
            responses: MuxQueue::new(),
        }
    }

    pub fn upstream(&self) -> (r: Addr)
        ensures
            r == self.spec_upstream(),
    {
        self.upstream
    }

    pub fn contains_session(&self, a: &Addr) -> (r: bool)
        ensures
            r == self.sessions().contains_key(*a),
    {
        self.table.contains(a)
    }

    pub fn session_connected(&self, a: &Addr) -> (r: bool)
        requires
            self.wf(),
            self.sessions().contains_key(*a),
        ensures
            r == self.sessions()[*a].connected,
    {
        match self.table.get(a) {
            Some(s) => s.connected,
            None => false,
        }
    }

    pub fn pending_responses(&self) -> (n: usize)
        ensures
            n == self.spec_responses().len(),
    {
        self.responses.len()
    }

    pub fn pending_expiry(&self) -> (n: usize)
        ensures
            n == self.spec_expiry().len(),
    {
        self.expiry.len()
    }

    /// The dispatch loop's first duty each iteration: drain the Expiry
    /// Queue in full, removing every named address from the Session Table,
    /// so a stale entry never outlives one receive cycle. Sessions of
    /// addresses not named are untouched.
    pub fn drain_expired(&mut self)
        requires
            old(self).wf(),
        ensures
            final(self).wf(),
            final(self).spec_upstream() == old(self).spec_upstream(),
            final(self).spec_responses() == old(self).spec_responses(),
            final(self).spec_expiry() == Seq::<Addr>::empty(),
            final(self).sessions() == old(self).sessions().remove_keys(
                old(self).spec_expiry().to_set(),
            ),
    {
        purge_expired(&mut self.table, &mut self.expiry);
        proof {
            assert forall|a: Addr| self.sessions().contains_key(a) implies (
            #[trigger] self.sessions()[a]).wf() && self.sessions()[a].client == a by {
                assert(old(self).sessions().contains_key(a));
                assert(self.sessions()[a] == old(self).sessions()[a]);
            }
        }
    }

    /// One datagram from `src` on the listening socket. The placeholder
    /// address of a failed receive is ignored. Otherwise the dispatch loop
    /// looks the sender up, creating a brand-new session if the address is
    /// absent or its old session is dead (the stale-session-reuse rule),
    /// and the session's forwarder hands the payload on: what goes out is
    /// the same bytes, addressed to the fixed upstream target. No other
    /// client's session is touched.
    pub fn client_datagram(&mut self, src: Addr, payload: Vec<u8>) -> (r: Option<Forwarded>)
        requires
            old(self).wf(),
        ensures
            final(self).wf(),
            final(self).spec_upstream() == old(self).spec_upstream(),
            final(self).spec_expiry() == old(self).spec_expiry(),
            final(self).spec_responses() == old(self).spec_responses(),
            !src.spec_valid() ==> r is None && final(self).sessions() == old(self).sessions(),
            src.spec_valid() ==> {
                &&& (r matches Some(f) && f.dest == old(self).spec_upstream() && f.payload@
                    == payload@)
                &&& final(self).sessions().dom() == old(self).sessions().dom().insert(src)
                &&& (forall|a: Addr|
                    a != src && old(self).sessions().contains_key(a) ==> #[trigger] final(self).sessions()[a] == old(self).sessions()[a])
                &&& final(self).sessions()[src].client == src
                &&& final(self).sessions()[src].connected
                &&& final(self).sessions()[src].fwd.idle_cycles == 0
                &&& ((!old(self).sessions().contains_key(src) || !old(self).sessions()[src].connected) ==> final(self).sessions()[src]
                    == Session::spec_fresh(src))
                &&& ((old(self).sessions().contains_key(src) && old(self).sessions()[src].connected)
                    ==> final(self).sessions()[src] == old(self).sessions()[src].spec_deliver(
                    true,
                ))
            },
    {
        if !src.is_valid() {
            return None;
        }
        let existing = self.table.remove(&src);
        match existing {
            Some(s) => {
                proof {
                    assert(old(self).sessions().contains_key(src));
                    assert(s == old(self).sessions()[src]);
                }
                if s.forwarder_should_exit() {
                    self.table.insert(src, Session::new(src));
                } else {
                    let mut live = s;
                    live.forwarder_deliver(true);
                    self.table.insert(src, live);
                }
            },
            None => {
                self.table.insert(src, Session::new(src));
            },
        }
        proof {
            assert(self.sessions().dom() =~= old(self).sessions().dom().insert(src));
            assert forall|a: Addr| self.sessions().contains_key(a) implies (
            #[trigger] self.sessions()[a]).wf() && self.sessions()[a].client == a by {
                if a != src {
                    assert(old(self).sessions().contains_key(a));
                    assert(self.sessions()[a] == old(self).sessions()[a]);
                }
            }
        }
        Some(Forwarded { dest: self.upstream, payload })
    }

    /// One idle-timeout period elapsing on `src`'s forwarder with no
    /// client traffic: the idle count grows by one, and on reaching the
    /// limit the session is declared dead. No other session is touched.
    pub fn idle_tick(&mut self, src: Addr) -> (dead: bool)
        requires
            old(self).wf(),
            old(self).sessions().contains_key(src),
            old(self).sessions()[src].connected,
        ensures
            final(self).wf(),
            final(self).spec_upstream() == old(self).spec_upstream(),
            final(self).spec_expiry() == old(self).spec_expiry(),
            final(self).spec_responses() == old(self).spec_responses(),
            final(self).sessions().dom() == old(self).sessions().dom(),
            forall|a: Addr|
                a != src && old(self).sessions().contains_key(a) ==> #[trigger] final(self).sessions()[a] == old(self).sessions()[a],
            final(self).sessions()[src] == old(self).sessions()[src].spec_idle(),
            dead == !final(self).sessions()[src].connected,
    {
        let existing = self.table.remove(&src);
        let mut s = existing.unwrap();
        let dead = s.forwarder_idle();
        self.table.insert(src, s);
        proof {
            assert(self.sessions().dom() =~= old(self).sessions().dom());
            assert forall|a: Addr| self.sessions().contains_key(a) implies (
            #[trigger] self.sessions()[a]).wf() && self.sessions()[a].client == a by {
                if a != src {
                    assert(old(self).sessions().contains_key(a));
                    assert(self.sessions()[a] == old(self).sessions()[a]);
                }
            }
        }
        dead
    }

    /// The upstream server answered `src`'s session: its upstream reader
    /// relays the payload, byte for byte, to its own client — and only its
    /// own client — through the Response Multiplexer's queue.
    pub fn upstream_response(&mut self, src: Addr, payload: Vec<u8>)
        requires
            old(self).wf(),
            old(self).sessions().contains_key(src),
        ensures
            final(self).wf(),
            final(self).spec_upstream() == old(self).spec_upstream(),
            final(self).spec_expiry() == old(self).spec_expiry(),
            final(self).sessions() == old(self).sessions(),
            final(self).spec_responses() == old(self).spec_responses().push((src, payload@)),
    {
        let m: MuxMessage;
        match self.table.get(&src) {
            Some(sess) => {
                m = sess.relay_response(payload);
            },
            None => {
                proof {
                    assert(false);
                }
                m = MuxMessage { dest: src, payload: Vec::new() };
            },
        }
        self.responses.enqueue(m);
    }

    /// The upstream reader's socket read timed out. A bare timeout on a
    /// live session changes nothing; on a session the forwarder has
    /// already declared dead, the reader enqueues its client address for
    /// expiry and exits.
    pub fn reader_poll(&mut self, src: Addr) -> (exited: bool)
        requires
            old(self).wf(),
            old(self).sessions().contains_key(src),
        ensures
            final(self).wf(),
            final(self).spec_upstream() == old(self).spec_upstream(),
            final(self).sessions() == old(self).sessions(),
            final(self).spec_responses() == old(self).spec_responses(),
            old(self).sessions()[src].connected ==> !exited && final(self).spec_expiry() == old(self).spec_expiry(),
            !old(self).sessions()[src].connected ==> exited && final(self).spec_expiry() == old(self).spec_expiry().push(src),
    {
        let verdict: Option<Addr>;
        match self.table.get(&src) {
            Some(sess) => {
                verdict = sess.reader_on_read_timeout();
            },
            None => {
                proof {
                    assert(false);
                }
                verdict = None;
            },
        }
        match verdict {
            Some(a) => {
                self.expiry.push(a);
                true
            },
            None => false,
        }
    }

    /// `src`'s upstream reader could not hand a response to the
    /// multiplexer (its queue is closed: the proxy is shutting down): the
    /// session is marked dead and its address enqueued for expiry.
    pub fn reader_delivery_failed(&mut self, src: Addr)
        requires
            old(self).wf(),
            old(self).sessions().contains_key(src),
        ensures
            final(self).wf(),
            final(self).spec_upstream() == old(self).spec_upstream(),
            final(self).spec_responses() == old(self).spec_responses(),
            final(self).sessions().dom() == old(self).sessions().dom(),
            forall|a: Addr|
                a != src && old(self).sessions().contains_key(a) ==> #[trigger] final(self).sessions()[a] == old(self).sessions()[a],
            final(self).sessions()[src] == (Session {
                connected: false,
                ..old(self).sessions()[src]
            }),
            final(self).spec_expiry() == old(self).spec_expiry().push(src),
    {
        let existing = self.table.remove(&src);
        let mut s = existing.unwrap();
        let expire = s.reader_on_mux_closed();
        self.table.insert(src, s);
        self.expiry.push(expire);
        proof {
            assert(self.sessions().dom() =~= old(self).sessions().dom());
            assert forall|a: Addr| self.sessions().contains_key(a) implies (
            #[trigger] self.sessions()[a]).wf() && self.sessions()[a].client == a by {
                if a != src {
                    assert(old(self).sessions().contains_key(a));
                    assert(self.sessions()[a] == old(self).sessions()[a]);
                }
            }
        }
    }

    /// The multiplexer serves the oldest pending response: what gets
    /// written on the listening socket, addressed to the destination
    /// client, is that response's bytes unchanged. Arrival order is
    /// service order.
    pub fn pump_response(&mut self) -> (r: Option<MuxMessage>)
        requires
            old(self).wf(),
        ensures
            final(self).wf(),
            final(self).spec_upstream() == old(self).spec_upstream(),
            final(self).spec_expiry() == old(self).spec_expiry(),
            final(self).sessions() == old(self).sessions(),
            old(self).spec_responses().len() == 0 ==> r is None && final(self).spec_responses()
                == old(self).spec_responses(),
            old(self).spec_responses().len() > 0 ==> (r matches Some(m) && m@ == old(self).spec_responses()[0] && final(self).spec_responses() == old(self).spec_responses().drop_first()),
    {
        let r = self.responses.dequeue();
        proof {
            assert forall|a: Addr| self.sessions().contains_key(a) implies (
            #[trigger] self.sessions()[a]).wf() && self.sessions()[a].client == a by {
                assert(old(self).sessions().contains_key(a));
                assert(self.sessions()[a] == old(self).sessions()[a]);
            }
        }
        r
    }
}

} // verus!
