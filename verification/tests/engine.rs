use portforwarder::{
    forward, Action, ConnState, Dispatch, Endpoint, Engine, Fatal, Outcome, Phase, Readiness,
    Ready, TcpConnection, Token, UdpSession,
};

fn listen() -> Endpoint {
    Endpoint::new(127, 0, 0, 1, 1815)
}

fn target() -> Endpoint {
    Endpoint::new(127, 0, 0, 1, 2815)
}

fn readable(id: u64) -> Ready {
    Ready { token: Token(id), readiness: Readiness::Readable }
}

fn writable(id: u64) -> Ready {
    Ready { token: Token(id), readiness: Readiness::Writable }
}

fn poll(timeout_ms: Option<u64>) -> Action {
    Action::Poll { timeout_ms }
}

fn read(id: u64) -> Action {
    Action::Read { token: Token(id), capacity: 8192 }
}

fn write(id: u64, data: &[u8]) -> Action {
    Action::Write { token: Token(id), data: data.to_vec() }
}

fn receive(id: u64) -> Action {
    Action::ReceiveFrom { token: Token(id), capacity: 8192 }
}

fn data(bytes: &[u8]) -> Outcome {
    Outcome::Data(bytes.to_vec())
}

fn datagram(from: Endpoint, bytes: &[u8]) -> Outcome {
    Outcome::Datagram { from, data: bytes.to_vec() }
}

/// An engine whose listening sockets are set up and whose first poll is
/// under way.
fn started(abortable: bool) -> Engine {
    let (mut e, first) = forward(listen(), target(), abortable);
    assert_eq!(first, Action::OpenMultiplexer);
    assert_eq!(e.step(Outcome::Done), Action::ListenTcp { token: Token(0), at: listen() });
    assert_eq!(
        e.step(Outcome::Done),
        Action::Register { token: Token(0), interest: Readiness::Readable }
    );
    assert_eq!(e.step(Outcome::Done), Action::BindUdp { token: Token(1), at: listen() });
    assert_eq!(
        e.step(Outcome::Done),
        Action::Register { token: Token(1), interest: Readiness::Readable }
    );
    let timeout = if abortable { Some(100) } else { None };
    assert_eq!(e.step(Outcome::Done), poll(timeout));
    e
}

/// Accepts one client while a poll is under way; returns the ids of the
/// accepted and the dialed socket.
fn accept_pair(e: &mut Engine) -> (u64, u64) {
    let inbound = e.next_token();
    let outbound = Token(inbound.0 + 1);
    assert_eq!(
        e.step(Outcome::Ready(vec![readable(0)])),
        Action::Accept { listener: Token(0), token: inbound }
    );
    assert_eq!(
        e.step(Outcome::Done),
        Action::Register { token: inbound, interest: Readiness::Writable }
    );
    assert_eq!(e.step(Outcome::Done), Action::Connect { token: outbound, to: target() });
    assert_eq!(
        e.step(Outcome::Done),
        Action::Register { token: outbound, interest: Readiness::Writable }
    );
    assert_eq!(e.step(Outcome::Done), poll(None));
    (inbound.0, outbound.0)
}

/// Reports the first writable event of both sides of a pair.
fn establish_pair(e: &mut Engine, a: u64, b: u64) {
    assert_eq!(
        e.step(Outcome::Ready(vec![writable(a), writable(b)])),
        Action::Reregister { token: Token(a), interest: Readiness::Readable }
    );
    assert_eq!(
        e.step(Outcome::Done),
        Action::Reregister { token: Token(b), interest: Readiness::Readable }
    );
    assert_eq!(e.step(Outcome::Done), poll(None));
}

#[test]
fn setup_binds_and_registers_both_listeners_then_polls() {
    let e = started(false);
    assert_eq!(e.phase(), Phase::Polling);
    assert_eq!(e.next_token(), Token(2));
}

#[test]
fn setup_failures_end_the_run_with_their_error() {
    let (mut e, _) = forward(listen(), target(), false);
    assert_eq!(e.step(Outcome::Failed), Action::Stop(Err(Fatal::Multiplexer)));
    assert_eq!(e.phase(), Phase::Stopped(Err(Fatal::Multiplexer)));

    let (mut e, _) = forward(listen(), target(), false);
    e.step(Outcome::Done);
    assert_eq!(e.step(Outcome::Failed), Action::Stop(Err(Fatal::Listen(listen()))));

    let (mut e, _) = forward(listen(), target(), false);
    e.step(Outcome::Done);
    e.step(Outcome::Done);
    assert_eq!(e.step(Outcome::Failed), Action::Stop(Err(Fatal::Register(Token(0)))));

    let (mut e, _) = forward(listen(), target(), false);
    e.step(Outcome::Done);
    e.step(Outcome::Done);
    e.step(Outcome::Done);
    assert_eq!(e.step(Outcome::Failed), Action::Stop(Err(Fatal::Bind(listen()))));

    let (mut e, _) = forward(listen(), target(), false);
    e.step(Outcome::Done);
    e.step(Outcome::Done);
    e.step(Outcome::Done);
    e.step(Outcome::Done);
    assert_eq!(e.step(Outcome::Failed), Action::Stop(Err(Fatal::Register(Token(1)))));
}

#[test]
fn poll_failure_is_fatal() {
    let mut e = started(false);
    assert_eq!(e.step(Outcome::Failed), Action::Stop(Err(Fatal::Poll)));
}

#[test]
fn stopped_engine_stays_stopped() {
    let mut e = started(false);
    assert_eq!(e.step(Outcome::Failed), Action::Stop(Err(Fatal::Poll)));
    assert_eq!(e.step(Outcome::Done), Action::Stop(Err(Fatal::Poll)));
    assert_eq!(e.step(Outcome::Ready(vec![readable(0)])), Action::Stop(Err(Fatal::Poll)));
    assert_eq!(e.phase(), Phase::Stopped(Err(Fatal::Poll)));
}

#[test]
fn empty_batch_leads_to_the_next_poll() {
    let mut e = started(false);
    assert_eq!(e.step(Outcome::Ready(vec![])), poll(None));
    assert_eq!(e.step(Outcome::Ready(vec![])), poll(None));
    assert_eq!(e.phase(), Phase::Polling);
}

#[test]
fn events_of_unknown_ids_are_passed_over() {
    let mut e = started(false);
    assert_eq!(e.classify(readable(77)), Dispatch::Ignore);
    assert_eq!(e.classify(writable(0)), Dispatch::Ignore);
    assert_eq!(e.classify(writable(1)), Dispatch::Ignore);
    assert_eq!(
        e.step(Outcome::Ready(vec![readable(77), writable(0), writable(1), writable(5)])),
        poll(None)
    );
}

#[test]
fn accept_creates_a_pair_with_consecutive_ids() {
    let mut e = started(false);
    let (a, b) = accept_pair(&mut e);
    assert_eq!((a, b), (2, 3));
    assert_eq!(
        e.connection(Token(2)),
        Some(TcpConnection { peer: Token(3), state: ConnState::WritablePending })
    );
    assert_eq!(
        e.connection(Token(3)),
        Some(TcpConnection { peer: Token(2), state: ConnState::Connecting })
    );
    assert_eq!(e.next_token(), Token(4));
    let (c, d) = accept_pair(&mut e);
    assert_eq!((c, d), (4, 5));
    assert_eq!(e.next_token(), Token(6));
}

#[test]
fn accept_that_would_block_is_passed_over() {
    let mut e = started(false);
    assert_eq!(
        e.step(Outcome::Ready(vec![readable(0)])),
        Action::Accept { listener: Token(0), token: Token(2) }
    );
    assert_eq!(e.step(Outcome::WouldBlock), poll(None));
    assert_eq!(e.connection(Token(2)), None);
    assert_eq!(e.next_token(), Token(2));
}

#[test]
fn accept_failures_are_fatal() {
    let mut e = started(false);
    e.step(Outcome::Ready(vec![readable(0)]));
    assert_eq!(e.step(Outcome::Failed), Action::Stop(Err(Fatal::Accept)));

    let mut e = started(false);
    e.step(Outcome::Ready(vec![readable(0)]));
    e.step(Outcome::Done);
    assert_eq!(e.step(Outcome::Failed), Action::Stop(Err(Fatal::Register(Token(2)))));

    let mut e = started(false);
    e.step(Outcome::Ready(vec![readable(0)]));
    e.step(Outcome::Done);
    e.step(Outcome::Done);
    assert_eq!(e.step(Outcome::Failed), Action::Stop(Err(Fatal::Connect(target()))));

    let mut e = started(false);
    e.step(Outcome::Ready(vec![readable(0)]));
    e.step(Outcome::Done);
    e.step(Outcome::Done);
    e.step(Outcome::Done);
    assert_eq!(e.step(Outcome::Failed), Action::Stop(Err(Fatal::Register(Token(3)))));
    assert_eq!(e.connection(Token(2)), None);
    assert_eq!(e.connection(Token(3)), None);
}

#[test]
fn peer_of_every_connection_is_in_the_registry() {
    let mut e = started(false);
    accept_pair(&mut e);
    accept_pair(&mut e);
    accept_pair(&mut e);
    for id in 2..8u64 {
        let c = e.connection(Token(id)).unwrap();
        let p = e.connection(c.peer).unwrap();
        assert_eq!(p.peer, Token(id));
        assert_ne!(c.peer, Token(id));
    }
    establish_pair(&mut e, 4, 5);
    assert_eq!(e.step(Outcome::Ready(vec![readable(5)])), read(5));
    assert_eq!(e.step(data(b"")), Action::Close { first: Token(5), second: Token(4) });
    assert_eq!(e.connection(Token(4)), None);
    assert_eq!(e.connection(Token(5)), None);
    for id in [2u64, 3, 6, 7] {
        let c = e.connection(Token(id)).unwrap();
        assert_eq!(e.connection(c.peer).unwrap().peer, Token(id));
    }
}

#[test]
fn first_writable_event_only_establishes() {
    let mut e = started(false);
    accept_pair(&mut e);
    assert_eq!(e.classify(writable(3)), Dispatch::Establish(Token(3)));
    assert_eq!(
        e.step(Outcome::Ready(vec![writable(3)])),
        Action::Reregister { token: Token(3), interest: Readiness::Readable }
    );
    assert_eq!(e.phase(), Phase::Reregistering(Token(3)));
    assert_eq!(
        e.connection(Token(3)),
        Some(TcpConnection { peer: Token(2), state: ConnState::Established })
    );
    assert_eq!(
        e.connection(Token(2)),
        Some(TcpConnection { peer: Token(3), state: ConnState::WritablePending })
    );
    assert_eq!(e.step(Outcome::Done), poll(None));
    assert_eq!(e.classify(writable(3)), Dispatch::Ignore);
    assert_eq!(e.step(Outcome::Ready(vec![writable(3)])), poll(None));
}

#[test]
fn reregister_failure_is_fatal() {
    let mut e = started(false);
    accept_pair(&mut e);
    e.step(Outcome::Ready(vec![writable(2)]));
    assert_eq!(e.step(Outcome::Failed), Action::Stop(Err(Fatal::Register(Token(2)))));
}

#[test]
fn nothing_is_relayed_before_both_sides_are_established() {
    let mut e = started(false);
    accept_pair(&mut e);
    assert_eq!(e.classify(readable(2)), Dispatch::Ignore);
    assert_eq!(e.classify(readable(3)), Dispatch::Ignore);
    assert_eq!(e.step(Outcome::Ready(vec![readable(2), readable(3)])), poll(None));
    assert_eq!(
        e.step(Outcome::Ready(vec![writable(2)])),
        Action::Reregister { token: Token(2), interest: Readiness::Readable }
    );
    assert_eq!(e.step(Outcome::Done), poll(None));
    assert_eq!(e.classify(readable(2)), Dispatch::Ignore);
    assert_eq!(e.step(Outcome::Ready(vec![readable(2)])), poll(None));
    assert_eq!(
        e.step(Outcome::Ready(vec![writable(3)])),
        Action::Reregister { token: Token(3), interest: Readiness::Readable }
    );
    assert_eq!(e.step(Outcome::Done), poll(None));
    assert_eq!(e.classify(readable(2)), Dispatch::Relay(Token(2)));
    assert_eq!(e.step(Outcome::Ready(vec![readable(2)])), read(2));
}

#[test]
fn tcp_echo_round_trip() {
    let mut e = started(false);
    let (client, server) = accept_pair(&mut e);
    establish_pair(&mut e, client, server);
    assert_eq!(e.step(Outcome::Ready(vec![readable(client)])), read(client));
    assert_eq!(e.step(data(b"ping")), write(server, b"ping"));
    assert_eq!(e.step(Outcome::Written(4)), poll(None));
    assert_eq!(e.step(Outcome::Ready(vec![readable(server)])), read(server));
    assert_eq!(e.step(data(b"ping")), write(client, b"ping"));
    assert_eq!(e.step(Outcome::Written(4)), poll(None));
    assert_eq!(
        e.connection(Token(client)),
        Some(TcpConnection { peer: Token(server), state: ConnState::Established })
    );
}

#[test]
fn partial_write_is_accepted() {
    let mut e = started(false);
    let (a, b) = accept_pair(&mut e);
    establish_pair(&mut e, a, b);
    assert_eq!(e.step(Outcome::Ready(vec![readable(a)])), read(a));
    assert_eq!(e.step(data(b"abcdef")), write(b, b"abcdef"));
    assert_eq!(e.phase(), Phase::Writing(Token(a)));
    assert_eq!(e.step(Outcome::Written(2)), poll(None));
    assert!(e.connection(Token(a)).is_some());
    assert!(e.connection(Token(b)).is_some());
}

#[test]
fn read_that_would_block_changes_nothing() {
    let mut e = started(false);
    let (a, b) = accept_pair(&mut e);
    establish_pair(&mut e, a, b);
    assert_eq!(e.step(Outcome::Ready(vec![readable(a), readable(b)])), read(a));
    assert_eq!(e.step(Outcome::WouldBlock), read(b));
    assert_eq!(e.step(Outcome::WouldBlock), poll(None));
    assert!(e.connection(Token(a)).is_some());
    assert!(e.connection(Token(b)).is_some());
}

#[test]
fn eof_removes_both_sides_once() {
    let mut e = started(false);
    let (a, b) = accept_pair(&mut e);
    establish_pair(&mut e, a, b);
    assert_eq!(e.step(Outcome::Ready(vec![readable(a), readable(b), readable(a)])), read(a));
    assert_eq!(e.step(data(b"")), Action::Close { first: Token(a), second: Token(b) });
    assert_eq!(e.phase(), Phase::Closing);
    assert_eq!(e.connection(Token(a)), None);
    assert_eq!(e.connection(Token(b)), None);
    assert_eq!(e.step(Outcome::Done), poll(None));
    assert_eq!(e.classify(readable(a)), Dispatch::Ignore);
    assert_eq!(e.classify(readable(b)), Dispatch::Ignore);
    assert_eq!(e.classify(writable(a)), Dispatch::Ignore);
    assert_eq!(
        e.step(Outcome::Ready(vec![readable(a), readable(b), writable(a), writable(b)])),
        poll(None)
    );
}

#[test]
fn eof_from_the_target_side_removes_both_sides() {
    let mut e = started(false);
    let (a, b) = accept_pair(&mut e);
    establish_pair(&mut e, a, b);
    assert_eq!(e.step(Outcome::Ready(vec![readable(b)])), read(b));
    assert_eq!(e.step(data(b"")), Action::Close { first: Token(b), second: Token(a) });
    assert_eq!(e.connection(Token(a)), None);
    assert_eq!(e.connection(Token(b)), None);
}

#[test]
fn read_error_removes_the_pair() {
    let mut e = started(false);
    let (a, b) = accept_pair(&mut e);
    establish_pair(&mut e, a, b);
    assert_eq!(e.step(Outcome::Ready(vec![readable(a)])), read(a));
    assert_eq!(e.step(Outcome::Failed), Action::Close { first: Token(a), second: Token(b) });
    assert_eq!(e.connection(Token(a)), None);
    assert_eq!(e.connection(Token(b)), None);
    assert_eq!(e.step(Outcome::Done), poll(None));
}

#[test]
fn write_error_removes_the_pair() {
    let mut e = started(false);
    let (a, b) = accept_pair(&mut e);
    establish_pair(&mut e, a, b);
    assert_eq!(e.step(Outcome::Ready(vec![readable(a)])), read(a));
    assert_eq!(e.step(data(b"x")), write(b, b"x"));
    assert_eq!(e.step(Outcome::Failed), Action::Close { first: Token(a), second: Token(b) });
    assert_eq!(e.connection(Token(a)), None);
    assert_eq!(e.connection(Token(b)), None);

    let mut e = started(false);
    let (a, b) = accept_pair(&mut e);
    establish_pair(&mut e, a, b);
    e.step(Outcome::Ready(vec![readable(b)]));
    e.step(data(b"x"));
    assert_eq!(e.step(Outcome::WouldBlock), Action::Close { first: Token(b), second: Token(a) });
}

#[test]
fn ids_are_not_reused_after_a_teardown() {
    let mut e = started(false);
    let (a, b) = accept_pair(&mut e);
    establish_pair(&mut e, a, b);
    e.step(Outcome::Ready(vec![readable(a)]));
    e.step(data(b""));
    assert_eq!(e.step(Outcome::Done), poll(None));
    let (c, d) = accept_pair(&mut e);
    assert_eq!((c, d), (4, 5));
    assert_eq!(e.connection(Token(a)), None);
    assert_eq!(e.connection(Token(b)), None);
}

#[test]
fn udp_round_trip() {
    let mut e = started(false);
    let client = Endpoint::new(127, 0, 0, 1, 50123);
    assert_eq!(e.step(Outcome::Ready(vec![readable(1)])), receive(1));
    assert_eq!(
        e.step(datagram(client, b"hello")),
        Action::BindUdp { token: Token(2), at: Endpoint::any() }
    );
    assert_eq!(e.phase(), Phase::BindingSession(client));
    assert_eq!(
        e.step(Outcome::Done),
        Action::Register { token: Token(2), interest: Readiness::Readable }
    );
    assert_eq!(
        e.step(Outcome::Done),
        Action::SendTo { token: Token(2), to: target(), data: b"hello".to_vec() }
    );
    assert_eq!(e.session_of(client), Some(UdpSession { socket: Token(2), addr: client }));
    assert_eq!(e.session(Token(2)), Some(UdpSession { socket: Token(2), addr: client }));
    assert_eq!(e.step(Outcome::Done), poll(None));

    assert_eq!(e.classify(readable(2)), Dispatch::ReceiveTarget(Token(2)));
    assert_eq!(e.step(Outcome::Ready(vec![readable(2)])), receive(2));
    assert_eq!(
        e.step(datagram(target(), b"world")),
        Action::SendTo { token: Token(1), to: client, data: b"world".to_vec() }
    );
    assert_eq!(e.step(Outcome::Done), poll(None));
}

#[test]
fn same_client_is_served_by_the_same_session() {
    let mut e = started(false);
    let client = Endpoint::new(10, 0, 0, 9, 4000);
    e.step(Outcome::Ready(vec![readable(1)]));
    e.step(datagram(client, b"one"));
    e.step(Outcome::Done);
    assert_eq!(
        e.step(Outcome::Done),
        Action::SendTo { token: Token(2), to: target(), data: b"one".to_vec() }
    );
    assert_eq!(e.step(Outcome::Done), poll(None));
    assert_eq!(e.next_token(), Token(3));

    assert_eq!(e.step(Outcome::Ready(vec![readable(1)])), receive(1));
    assert_eq!(
        e.step(datagram(client, b"two")),
        Action::SendTo { token: Token(2), to: target(), data: b"two".to_vec() }
    );
    assert_eq!(e.step(Outcome::Done), poll(None));
    assert_eq!(e.next_token(), Token(3));
    assert_eq!(e.session(Token(3)), None);
}

#[test]
fn different_clients_get_different_sessions() {
    let mut e = started(false);
    let one = Endpoint::new(10, 0, 0, 9, 4000);
    let two = Endpoint::new(10, 0, 0, 9, 4001);
    e.step(Outcome::Ready(vec![readable(1), readable(1)]));
    e.step(datagram(one, b"a"));
    e.step(Outcome::Done);
    e.step(Outcome::Done);
    assert_eq!(e.step(Outcome::Done), receive(1));
    assert_eq!(
        e.step(datagram(two, b"b")),
        Action::BindUdp { token: Token(3), at: Endpoint::any() }
    );
    e.step(Outcome::Done);
    assert_eq!(
        e.step(Outcome::Done),
        Action::SendTo { token: Token(3), to: target(), data: b"b".to_vec() }
    );
    assert_eq!(e.step(Outcome::Done), poll(None));
    assert_eq!(e.session_of(one), Some(UdpSession { socket: Token(2), addr: one }));
    assert_eq!(e.session_of(two), Some(UdpSession { socket: Token(3), addr: two }));

    e.step(Outcome::Ready(vec![readable(3), readable(2)]));
    assert_eq!(
        e.step(datagram(target(), b"for two")),
        Action::SendTo { token: Token(1), to: two, data: b"for two".to_vec() }
    );
    assert_eq!(e.step(Outcome::Done), receive(2));
    assert_eq!(
        e.step(datagram(target(), b"for one")),
        Action::SendTo { token: Token(1), to: one, data: b"for one".to_vec() }
    );
}

#[test]
fn udp_failures_are_passed_over_and_keep_the_session() {
    let mut e = started(false);
    let client = Endpoint::new(127, 0, 0, 1, 50123);
    assert_eq!(e.step(Outcome::Ready(vec![readable(1)])), receive(1));
    assert_eq!(e.step(Outcome::Failed), poll(None));
    assert_eq!(e.step(Outcome::Ready(vec![readable(1)])), receive(1));
    assert_eq!(e.step(Outcome::WouldBlock), poll(None));

    e.step(Outcome::Ready(vec![readable(1)]));
    e.step(datagram(client, b"hello"));
    e.step(Outcome::Done);
    e.step(Outcome::Done);
    assert_eq!(e.phase(), Phase::SendingToTarget);
    assert_eq!(e.step(Outcome::Failed), poll(None));
    assert_eq!(e.session_of(client), Some(UdpSession { socket: Token(2), addr: client }));

    assert_eq!(e.step(Outcome::Ready(vec![readable(2)])), receive(2));
    assert_eq!(e.step(Outcome::Failed), poll(None));
    assert_eq!(e.step(Outcome::Ready(vec![readable(2)])), receive(2));
    e.step(datagram(target(), b"world"));
    assert_eq!(e.phase(), Phase::Replying);
    assert_eq!(e.step(Outcome::Failed), poll(None));
    assert_eq!(e.session(Token(2)), Some(UdpSession { socket: Token(2), addr: client }));
}

#[test]
fn session_setup_failures_are_fatal() {
    let client = Endpoint::new(127, 0, 0, 1, 50123);
    let mut e = started(false);
    e.step(Outcome::Ready(vec![readable(1)]));
    e.step(datagram(client, b"hello"));
    assert_eq!(e.step(Outcome::Failed), Action::Stop(Err(Fatal::Bind(Endpoint::any()))));

    let mut e = started(false);
    e.step(Outcome::Ready(vec![readable(1)]));
    e.step(datagram(client, b"hello"));
    e.step(Outcome::Done);
    assert_eq!(e.step(Outcome::Failed), Action::Stop(Err(Fatal::Register(Token(2)))));
    assert_eq!(e.session_of(client), None);
}

#[test]
fn connections_and_sessions_share_one_id_space() {
    let mut e = started(false);
    let client = Endpoint::new(127, 0, 0, 1, 50123);
    accept_pair(&mut e);
    e.step(Outcome::Ready(vec![readable(1)]));
    assert_eq!(
        e.step(datagram(client, b"x")),
        Action::BindUdp { token: Token(4), at: Endpoint::any() }
    );
    e.step(Outcome::Done);
    e.step(Outcome::Done);
    assert_eq!(e.step(Outcome::Done), poll(None));
    let (a, b) = accept_pair(&mut e);
    assert_eq!((a, b), (5, 6));
    assert_eq!(e.session(Token(4)), Some(UdpSession { socket: Token(4), addr: client }));
    assert_eq!(e.connection(Token(4)), None);
    assert_eq!(e.session(Token(5)), None);
}

#[test]
fn abortable_engine_polls_briefly_and_reads_the_flag() {
    let mut e = started(true);
    assert_eq!(e.step(Outcome::Ready(vec![])), Action::CheckAbort);
    assert_eq!(e.phase(), Phase::CheckingAbort);
    assert_eq!(e.step(Outcome::Abort(false)), poll(Some(100)));
    assert_eq!(e.step(Outcome::Ready(vec![readable(0)])), Action::CheckAbort);
    assert_eq!(
        e.step(Outcome::Abort(false)),
        Action::Accept { listener: Token(0), token: Token(2) }
    );
}

#[test]
fn set_abort_flag_ends_the_run_cleanly() {
    let mut e = started(true);
    assert_eq!(e.step(Outcome::Ready(vec![readable(0), readable(1)])), Action::CheckAbort);
    assert_eq!(e.step(Outcome::Abort(true)), Action::Stop(Ok(())));
    assert_eq!(e.phase(), Phase::Stopped(Ok(())));
    assert_eq!(e.step(Outcome::Done), Action::Stop(Ok(())));
}

#[test]
fn engine_without_abort_flag_polls_without_limit() {
    let mut e = started(false);
    assert_eq!(e.step(Outcome::Ready(vec![])), Action::Poll { timeout_ms: None });
    assert_eq!(
        e.step(Outcome::Ready(vec![readable(1)])),
        Action::ReceiveFrom { token: Token(1), capacity: 8192 }
    );
}

#[test]
fn events_of_one_batch_are_taken_in_order() {
    let mut e = started(false);
    let (a, b) = accept_pair(&mut e);
    establish_pair(&mut e, a, b);
    assert_eq!(
        e.step(Outcome::Ready(vec![readable(b), readable(1), readable(0), readable(a)])),
        read(b)
    );
    assert_eq!(e.step(Outcome::WouldBlock), receive(1));
    assert_eq!(e.step(Outcome::WouldBlock), Action::Accept { listener: Token(0), token: Token(4) });
    assert_eq!(e.step(Outcome::WouldBlock), read(a));
    assert_eq!(e.step(Outcome::WouldBlock), poll(None));
}
