use udpprox::addr::Addr;
use udpprox::dispatch::{Config, RecoveryAction, on_handoff_refused};
use udpprox::engine::Engine;
use udpprox::expiry::{ExpiryQueue, purge_expired};
use udpprox::mux::{MuxMessage, MuxQueue};
use udpprox::session::{
    ForwarderState, Session, IDLE_TIMEOUT_MILLIS, MAX_IDLE_CYCLES, UPSTREAM_READ_TIMEOUT_MILLIS,
};
use udpprox::table::SessionTable;

fn ip(a: u8, b: u8, c: u8, d: u8) -> u32 {
    ((a as u32) << 24) | ((b as u32) << 16) | ((c as u32) << 8) | (d as u32)
}

fn loopback(port: u16) -> Addr {
    Addr::new(ip(127, 0, 0, 1), port)
}

#[test]
fn addr_validity() {
    assert!(loopback(9000).is_valid());
    let sentinel = Addr::new(0, 0);
    assert!(!sentinel.is_valid());
    assert_eq!(loopback(9000), loopback(9000));
    assert_ne!(loopback(9000), loopback(9001));
}

#[test]
fn policy_constants() {
    assert_eq!(IDLE_TIMEOUT_MILLIS, 10_000);
    assert_eq!(MAX_IDLE_CYCLES, 6);
    assert_eq!(UPSTREAM_READ_TIMEOUT_MILLIS, IDLE_TIMEOUT_MILLIS + 100);
}

#[test]
fn forwarder_idle_accumulation() {
    let mut f = ForwarderState::new();
    for _ in 0..5 {
        assert!(!f.on_idle_timeout());
    }
    assert_eq!(f.idle_cycles, 5);
    assert!(f.on_idle_timeout());
    assert_eq!(f.idle_cycles, MAX_IDLE_CYCLES);
}

#[test]
fn forwarder_reset_on_success_only() {
    let mut f = ForwarderState::new();
    assert!(!f.on_idle_timeout());
    assert!(!f.on_idle_timeout());
    f.on_forward(false);
    assert_eq!(f.idle_cycles, 2);
    f.on_forward(true);
    assert_eq!(f.idle_cycles, 0);
}

#[test]
fn session_dies_after_six_idle_periods() {
    let mut s = Session::new(loopback(4000));
    assert!(s.connected);
    assert!(!s.forwarder_should_exit());
    for _ in 0..5 {
        assert!(!s.forwarder_idle());
    }
    assert!(s.forwarder_idle());
    assert!(!s.connected);
    assert!(s.forwarder_should_exit());
}

#[test]
fn session_survives_with_traffic() {
    let mut s = Session::new(loopback(4001));
    for _ in 0..20 {
        for _ in 0..5 {
            assert!(!s.forwarder_idle());
        }
        s.forwarder_deliver(true);
        assert_eq!(s.fwd.idle_cycles, 0);
    }
    assert!(s.connected);
}

#[test]
fn relay_keeps_payload_and_targets_own_client() {
    let client = loopback(4100);
    let s = Session::new(client);
    let m = s.relay_response(b"response bytes".to_vec());
    assert_eq!(m.dest, client);
    assert_eq!(m.payload, b"response bytes".to_vec());
}

#[test]
fn reader_timeout_only_exits_dead_sessions() {
    let mut s = Session::new(loopback(4200));
    assert_eq!(s.reader_on_read_timeout(), None);
    for _ in 0..6 {
        s.forwarder_idle();
    }
    assert_eq!(s.reader_on_read_timeout(), Some(loopback(4200)));
}

#[test]
fn reader_mux_failure_kills_session() {
    let mut s = Session::new(loopback(4300));
    let expire = s.reader_on_mux_closed();
    assert_eq!(expire, loopback(4300));
    assert!(!s.connected);
}

#[test]
fn table_insert_get_remove() {
    let mut t: SessionTable<u64> = SessionTable::new();
    let a = loopback(5000);
    let b = loopback(5001);
    assert!(!t.contains(&a));
    t.insert(a, 7);
    t.insert(b, 8);
    assert!(t.contains(&a));
    assert_eq!(t.get(&a).copied(), Some(7));
    assert_eq!(t.get(&b).copied(), Some(8));
    assert_eq!(t.len(), 2);
    assert_eq!(t.remove(&a), Some(7));
    assert_eq!(t.remove(&a), None);
    assert!(!t.contains(&a));
    assert!(t.contains(&b));
}

#[test]
fn table_reinsert_after_removal() {
    let mut t: SessionTable<u64> = SessionTable::new();
    let a = loopback(5100);
    t.insert(a, 1);
    t.remove(&a);
    t.insert(a, 2);
    assert_eq!(t.get(&a).copied(), Some(2));
    assert_eq!(t.len(), 1);
}

#[test]
fn purge_is_idempotent_and_total() {
    let mut t: SessionTable<u64> = SessionTable::new();
    let a = loopback(5200);
    let b = loopback(5201);
    let c = loopback(5202);
    t.insert(a, 1);
    t.insert(b, 2);
    t.insert(c, 3);
    let mut q = ExpiryQueue::new();
    q.push(a);
    q.push(b);
    q.push(a);
    purge_expired(&mut t, &mut q);
    assert_eq!(q.len(), 0);
    assert!(!t.contains(&a));
    assert!(!t.contains(&b));
    assert_eq!(t.get(&c).copied(), Some(3));
}

#[test]
fn mux_queue_is_first_in_first_out() {
    let mut q = MuxQueue::new();
    q.enqueue(MuxMessage { dest: loopback(6000), payload: b"one".to_vec() });
    q.enqueue(MuxMessage { dest: loopback(6001), payload: b"two".to_vec() });
    q.enqueue(MuxMessage { dest: loopback(6002), payload: b"three".to_vec() });
    let m1 = q.dequeue().unwrap();
    assert_eq!(m1.dest, loopback(6000));
    assert_eq!(m1.payload, b"one".to_vec());
    let m2 = q.dequeue().unwrap();
    assert_eq!(m2.dest, loopback(6001));
    assert_eq!(m2.payload, b"two".to_vec());
    let m3 = q.dequeue().unwrap();
    assert_eq!(m3.dest, loopback(6002));
    assert!(q.dequeue().is_none());
}

#[test]
fn handoff_refusal_policy() {
    assert_eq!(on_handoff_refused(false), RecoveryAction::EvictAndRetry);
    assert_eq!(on_handoff_refused(true), RecoveryAction::Fatal);
}

#[test]
fn config_record() {
    let c = Config::new(loopback(9000), loopback(9100), true);
    assert_eq!(c.bind, loopback(9000));
    assert_eq!(c.upstream, loopback(9100));
    assert!(c.debug);
}

#[test]
fn echo_round_trip() {
    // Proxy bound on 127.0.0.1:9000 forwarding to an echo server on
    // 127.0.0.1:9100; a client sends b"ping" and gets b"ping" back.
    let upstream = loopback(9100);
    let client = loopback(34567);
    let mut e = Engine::new(upstream);
    let out = e.client_datagram(client, b"ping".to_vec()).unwrap();
    assert_eq!(out.dest, upstream);
    assert_eq!(out.payload, b"ping".to_vec());
    // The echo server answers with the same bytes.
    e.upstream_response(client, out.payload);
    let back = e.pump_response().unwrap();
    assert_eq!(back.dest, client);
    assert_eq!(back.payload, b"ping".to_vec());
    assert!(e.pump_response().is_none());
}

#[test]
fn two_clients_stay_isolated() {
    let upstream = loopback(9100);
    let a = loopback(40001);
    let b = loopback(40002);
    let mut e = Engine::new(upstream);
    let out_a = e.client_datagram(a, b"from-a".to_vec()).unwrap();
    let out_b = e.client_datagram(b, b"from-b".to_vec()).unwrap();
    assert_eq!(out_a.payload, b"from-a".to_vec());
    assert_eq!(out_b.payload, b"from-b".to_vec());
    assert!(e.contains_session(&a));
    assert!(e.contains_session(&b));
    e.upstream_response(a, b"echo-a".to_vec());
    e.upstream_response(b, b"echo-b".to_vec());
    let m1 = e.pump_response().unwrap();
    let m2 = e.pump_response().unwrap();
    assert_eq!(m1.dest, a);
    assert_eq!(m1.payload, b"echo-a".to_vec());
    assert_eq!(m2.dest, b);
    assert_eq!(m2.payload, b"echo-b".to_vec());
}

#[test]
fn silent_client_is_torn_down_and_can_return() {
    let upstream = loopback(9100);
    let client = loopback(41000);
    let mut e = Engine::new(upstream);
    e.client_datagram(client, b"hello".to_vec()).unwrap();
    assert!(e.session_connected(&client));
    // Longer than six idle-timeout periods with no client traffic.
    for _ in 0..5 {
        assert!(!e.idle_tick(client));
    }
    assert!(e.idle_tick(client));
    assert!(!e.session_connected(&client));
    // The upstream reader notices on its next read timeout and enqueues
    // the address; the dispatch loop then purges the table entry.
    assert!(e.reader_poll(client));
    assert_eq!(e.pending_expiry(), 1);
    e.drain_expired();
    assert_eq!(e.pending_expiry(), 0);
    assert!(!e.contains_session(&client));
    // The client's next datagram gets a brand-new session, not the old one.
    let out = e.client_datagram(client, b"back".to_vec()).unwrap();
    assert_eq!(out.dest, upstream);
    assert_eq!(out.payload, b"back".to_vec());
    assert!(e.contains_session(&client));
    assert!(e.session_connected(&client));
}

#[test]
fn stale_entry_is_replaced_in_place() {
    // A session dies but its entry has not been purged yet; the client's
    // next datagram must be served by a fresh session under the same key.
    let upstream = loopback(9100);
    let client = loopback(42000);
    let mut e = Engine::new(upstream);
    e.client_datagram(client, b"first".to_vec()).unwrap();
    for _ in 0..6 {
        e.idle_tick(client);
    }
    assert!(!e.session_connected(&client));
    let out = e.client_datagram(client, b"second".to_vec()).unwrap();
    assert_eq!(out.payload, b"second".to_vec());
    assert!(e.session_connected(&client));
}

#[test]
fn shutdown_delivery_failure_tears_session_down() {
    let upstream = loopback(9100);
    let client = loopback(43000);
    let mut e = Engine::new(upstream);
    assert_eq!(e.upstream(), upstream);
    e.client_datagram(client, b"x".to_vec()).unwrap();
    assert_eq!(e.pending_responses(), 0);
    e.reader_delivery_failed(client);
    assert!(!e.session_connected(&client));
    assert_eq!(e.pending_expiry(), 1);
    e.drain_expired();
    assert!(!e.contains_session(&client));
}

#[test]
fn placeholder_sender_is_ignored() {
    let mut e = Engine::new(loopback(9100));
    let sentinel = Addr::new(0, 0);
    assert!(e.client_datagram(sentinel, b"noise".to_vec()).is_none());
    assert!(!e.contains_session(&sentinel));
}
