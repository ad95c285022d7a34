//! Core of a stateful UDP reverse proxy ("NAT relay").
//!
//! The proxy listens on one bound address and, for every distinct client
//! address that sends it a datagram, keeps a session that forwards that
//! client's traffic to a single fixed upstream target and relays upstream
//! responses back to the originating client. UDP carries no connection
//! signalling, so session boundaries are inferred: a session is created on
//! the first datagram from a new address and torn down after six consecutive
//! idle-timeout periods with no client traffic.
//!
//! This crate holds the decision logic of that system: the per-session
//! forwarder and upstream-reader state machines, the session table, the
//! expiry queue, the response multiplexer's queue discipline, and a
//! sequential engine composing them, with the proxy's guarantees stated as
//! contracts and lemmas. The surrounding process (sockets, threads,
//! channels, argument parsing) drives these decisions from outside.

pub mod addr;
pub mod session;
pub mod mux;
pub mod table;
pub mod expiry;
pub mod dispatch;
pub mod engine;
