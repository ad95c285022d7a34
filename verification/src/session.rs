use vstd::prelude::*;
use crate::addr::Addr;
use crate::mux::MuxMessage;

verus! {

/// The forwarder's inbound-wait duration, in milliseconds: one idle-timeout
/// period.
pub const IDLE_TIMEOUT_MILLIS: u64 = 10000;

/// Consecutive idle-timeout periods with no client traffic after which a
/// session is declared dead. The effective idle lifetime of a session is
/// this many timeout periods, not one: an accumulation policy, not a
/// single-shot timeout.
pub const MAX_IDLE_CYCLES: u64 = 6;

/// Read timeout of a session's upstream-facing socket: one idle-timeout
/// period plus a margin, chosen longer than the forwarder's wait so a bare
/// read timeout never fires before the forwarder's own idle policy has run.
pub const UPSTREAM_READ_TIMEOUT_MILLIS: u64 = IDLE_TIMEOUT_MILLIS + 100;

/// The forwarder worker's accumulated-idle state: how many consecutive
/// inbound waits have timed out since the last successful forward.
pub struct ForwarderState {
    pub idle_cycles: u64,
}

impl ForwarderState {
    pub open spec fn wf(self) -> bool {
        self.idle_cycles <= MAX_IDLE_CYCLES
    }

    /// The accumulation policy has fired: the session must be torn down.
    pub open spec fn expired(self) -> bool {
        self.idle_cycles >= MAX_IDLE_CYCLES
    }

    pub fn new() -> (r: ForwarderState)
        ensures
            r.idle_cycles == 0,
    {
        ForwarderState { idle_cycles: 0 }
    }

    /// A datagram arrived on the inbound channel and was sent on to the
    /// upstream target; `sent` says whether that send succeeded. Only a
    /// successful forward resets the idle count; a failed send is reported
    /// by the caller and the session carries on unchanged.
    pub fn on_forward(&mut self, sent: bool)
        ensures
            final(self).idle_cycles == (if sent { 0u64 } else { old(self).idle_cycles }),
    {
        if sent {
            self.idle_cycles = 0;
        }
    }

    /// The inbound wait timed out: one more idle cycle. The result says
    /// whether the accumulation limit has now been reached. Once expired,
    /// the worker exits and never counts further.
    pub fn on_idle_timeout(&mut self) -> (expired: bool)
        requires
            !old(self).expired(),
        ensures
            final(self).idle_cycles == old(self).idle_cycles + 1,
            expired == final(self).expired(),
            final(self).wf(),
    {
        self.idle_cycles = self.idle_cycles + 1;
        self.idle_cycles >= MAX_IDLE_CYCLES
    }
}

/// One client's session as a single value: the client address it serves,
/// the liveness flag its two workers share, and the forwarder's idle state.
/// In the running process the flag is an atomic boolean and the two workers
/// act on it from separate threads; the contracts here describe each
/// worker's step on the session value it observes.
pub struct Session {
    pub client: Addr,
    pub connected: bool,
    pub fwd: ForwarderState,
}

impl Session {
    pub open spec fn wf(self) -> bool {
        self.fwd.wf() && (self.connected ==> !self.fwd.expired())
    }

    /// A freshly created session: live, with no idle periods accumulated.
    pub open spec fn spec_fresh(client: Addr) -> Session {
        Session { client, connected: true, fwd: ForwarderState { idle_cycles: 0 } }
    }

    pub fn new(client: Addr) -> (r: Session)
        ensures
            r == Session::spec_fresh(client),
            r.wf(),
    {
        Session { client, connected: true, fwd: ForwarderState::new() }
    }

    /// The forwarder's step on a delivered datagram: a successful upstream
    /// send resets the idle count, a failed one leaves it unchanged, and
    /// the session stays live either way.
    pub open spec fn spec_deliver(self, sent: bool) -> Session {
        Session {
            fwd: ForwarderState { idle_cycles: if sent { 0u64 } else { self.fwd.idle_cycles } },
            ..self
        }
    }

    /// The forwarder's step on an inbound-wait timeout: one more idle
    /// cycle; reaching the limit clears the liveness flag.
    pub open spec fn spec_idle(self) -> Session {
        let n = (self.fwd.idle_cycles + 1) as u64;
        Session {
            connected: self.connected && n < MAX_IDLE_CYCLES,
            fwd: ForwarderState { idle_cycles: n },
            ..self
        }
    }

    pub fn forwarder_deliver(&mut self, sent: bool)
        requires
            old(self).wf(),
            old(self).connected,
        ensures
            *final(self) == old(self).spec_deliver(sent),
            final(self).wf(),
    {
        self.fwd.on_forward(sent);
    }

    pub fn forwarder_idle(&mut self) -> (dead: bool)
        requires
            old(self).wf(),
            old(self).connected,
        ensures
            *final(self) == old(self).spec_idle(),
            final(self).wf(),
            dead == !final(self).connected,
    {
        let expired = self.fwd.on_idle_timeout();
        if expired {
            self.connected = false;
        }
        expired
    }

    /// The forwarder checks the shared liveness flag before each wait and
    /// exits at once if the upstream reader has already declared the
    /// session dead.
    pub fn forwarder_should_exit(&self) -> (r: bool)
        ensures
            r == !self.connected,
    {
        !self.connected
    }

    /// The upstream reader received `payload` from the upstream server:
    /// relay it, byte for byte, to this session's own client through the
    /// response multiplexer.
    pub fn relay_response(&self, payload: Vec<u8>) -> (m: MuxMessage)
        ensures
            m.dest == self.client,
            m.payload@ == payload@,
    {
        MuxMessage { dest: self.client, payload }
    }

    /// The upstream reader could not hand a response to the multiplexer
    /// (its queue is closed: the proxy is shutting down). The session is
    /// dead; the caller enqueues the returned address for expiry and the
    /// reader exits.
    pub fn reader_on_mux_closed(&mut self) -> (expire: Addr)
        ensures
            *final(self) == (Session { connected: false, ..*old(self) }),
            expire == old(self).client,
    {
        self.connected = false;
        self.client
    }

    /// The upstream reader's socket read timed out. A bare read timeout
    /// never kills a live session; only if the forwarder has already
    /// declared the session dead does the reader name its client address
    /// for expiry and exit.
    pub fn reader_on_read_timeout(&self) -> (expire: Option<Addr>)
        ensures
            self.connected ==> expire is None,
            !self.connected ==> expire == Some(self.client),
    {
        if self.connected {
            None
        } else {
            Some(self.client)
        }
    }
}

/// One observable event in a session forwarder's life: a client datagram
/// delivered on the inbound channel (`sent` tells whether the following
/// upstream send succeeded), or an inbound wait that timed out.
pub enum FwdEvent {
    Datagram { payload: Seq<u8>, sent: bool },
    IdleTimeout,
}

/// One forwarder step; a dead session handles nothing.
pub open spec fn step_forwarder(s: Session, ev: FwdEvent) -> Session {
    if !s.connected {
        s
    } else {
        match ev {
            FwdEvent::Datagram { payload, sent } => s.spec_deliver(sent),
            FwdEvent::IdleTimeout => s.spec_idle(),
        }
    }
}

/// The session state after the forwarder has handled `evs` in order.
pub open spec fn run_forwarder(s: Session, evs: Seq<FwdEvent>) -> Session
    decreases evs.len(),
{
    if evs.len() == 0 {
        s
    } else {
        run_forwarder(step_forwarder(s, evs.first()), evs.drop_first())
    }
}

/// The payloads the forwarder actually sends upstream while handling
/// `evs`, in order.
pub open spec fn forwarded_payloads(s: Session, evs: Seq<FwdEvent>) -> Seq<Seq<u8>>
    decreases evs.len(),
{
    if evs.len() == 0 {
        Seq::empty()
    } else {
        let rest = forwarded_payloads(step_forwarder(s, evs.first()), evs.drop_first());
        match evs.first() {
            FwdEvent::Datagram { payload, sent } => if s.connected && sent {
                seq![payload] + rest
            } else {
                rest
            },
            FwdEvent::IdleTimeout => rest,
        }
    }
}

/// The datagram payloads among `evs` whose upstream sends succeed, in
/// arrival order.
pub open spec fn datagram_payloads(evs: Seq<FwdEvent>) -> Seq<Seq<u8>>
    decreases evs.len(),
{
    if evs.len() == 0 {
        Seq::empty()
    } else {
        let rest = datagram_payloads(evs.drop_first());
        match evs.first() {
            FwdEvent::Datagram { payload, sent } => if sent {
                seq![payload] + rest
            } else {
                rest
            },
            FwdEvent::IdleTimeout => rest,
        }
    }
}

/// No idle gap in `evs` is long enough to kill the session: starting from
/// `idle` accumulated cycles, the count never reaches the teardown limit
/// before a successful forward resets it.
pub open spec fn gaps_within_limit(idle: u64, evs: Seq<FwdEvent>) -> bool
    decreases evs.len(),
{
    evs.len() == 0 || (match evs.first() {
        FwdEvent::Datagram { payload, sent } => gaps_within_limit(
            if sent { 0u64 } else { idle },
            evs.drop_first(),
        ),
        FwdEvent::IdleTimeout => idle + 1 < MAX_IDLE_CYCLES && gaps_within_limit(
            (idle + 1) as u64,
            evs.drop_first(),
        ),
    })
}

/// A dead session handles no further events.
pub proof fn lemma_dead_stays_dead(s: Session, evs: Seq<FwdEvent>)
    requires
        !s.connected,
    ensures
        run_forwarder(s, evs) == s,
    decreases evs.len(),
{
    if evs.len() > 0 {
        lemma_dead_stays_dead(s, evs.drop_first());
    }
}

/// Order preservation for a single client: a session that starts live and
/// never sees an idle gap reaching the teardown limit stays live and
/// forwards exactly the delivered payloads, in their arrival order.
pub proof fn lemma_order_preserved(s: Session, evs: Seq<FwdEvent>)
    requires
        s.wf(),
        s.connected,
        gaps_within_limit(s.fwd.idle_cycles, evs),
    ensures
        run_forwarder(s, evs).connected,
        forwarded_payloads(s, evs) == datagram_payloads(evs),
    decreases evs.len(),
{
    if evs.len() > 0 {
        let s1 = step_forwarder(s, evs.first());
        lemma_order_preserved(s1, evs.drop_first());
    }
}

/// Teardown after sustained silence: a live session that sees nothing but
/// idle timeouts, for at least as many cycles as remain before the limit,
/// is dead afterwards.
pub proof fn lemma_idle_teardown(s: Session, evs: Seq<FwdEvent>)
    requires
        s.wf(),
        s.connected,
        evs.len() + s.fwd.idle_cycles >= MAX_IDLE_CYCLES,
        forall|i: int| 0 <= i < evs.len() ==> evs[i] is IdleTimeout,
    ensures
        !run_forwarder(s, evs).connected,
    decreases evs.len(),
{
    assert(evs[0] is IdleTimeout);
    let s1 = step_forwarder(s, evs.first());
    if s1.connected {
        assert(forall|i: int| 0 <= i < evs.drop_first().len() ==> evs.drop_first()[i] is IdleTimeout);
        lemma_idle_teardown(s1, evs.drop_first());
    } else {
        lemma_dead_stays_dead(s1, evs.drop_first());
    }
}

} // verus!
