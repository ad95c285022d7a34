use vstd::prelude::*;
use crate::addr::Addr;

verus! {

/// The proxy's configuration, resolved by the surrounding process and
/// consumed here as a flat record: the listening endpoint, the one fixed
/// upstream target every session forwards to, and the debug-trace switch.
pub struct Config {
    pub bind: Addr,
    pub upstream: Addr,
    pub debug: bool,
}

impl Config {
    pub fn new(bind: Addr, upstream: Addr, debug: bool) -> (r: Config)
        ensures
            r.bind == bind,
            r.upstream == upstream,
            r.debug == debug,
    {
        Config { bind, upstream, debug }
    }
}

/// What the dispatch loop does when a session's inbound channel refuses a
/// datagram because the session's workers have already exited.
#[derive(Clone, Copy, PartialEq, Eq, Structural, Debug)]
pub enum RecoveryAction {
    /// The entry was stale — the client timed out earlier and has come
    /// back: evict the entry at once (not through the Expiry Queue) and
    /// create a brand-new session for the same address.
    EvictAndRetry,
    /// The refusing session was created this very iteration: a fresh
    /// inbound channel can never be closed by an isolated timing issue, so
    /// channel creation itself is broken and the proxy fails loudly.
    Fatal,
}

/// The stale-session-reuse rule, and its deliberate escalation on double
/// failure: recover from a stale entry, abort on a fresh one.
pub fn on_handoff_refused(fresh_session: bool) -> (r: RecoveryAction)
    ensures
        r == (if fresh_session {
            RecoveryAction::Fatal
        } else {
            RecoveryAction::EvictAndRetry
        }),
{
    if fresh_session {
        RecoveryAction::Fatal
    } else {
        RecoveryAction::EvictAndRetry
    }
}

} // verus!
