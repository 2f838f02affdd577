//! The forwarding engine: it owns the registry, takes the outcome of each
//! operation its driver performed, and answers with the next operation.

use crate::endpoint::{Endpoint, Token, FIRST_DYNAMIC, TCP_SERVER, UDP_SERVER};
use crate::model::{Dispatch, EngineView};
use crate::protocol::{
    Action, Fatal, Outcome, Phase, Readiness, Ready, ABORT_POLL_MS, BUFFER_SIZE,
};
use crate::registry::{lemma_with_pair, ConnState, PairTable, TcpConnection};
use crate::sessions::{SessionTable, UdpSession};
use vstd::prelude::*;

verus! {

/// A forwarding engine. All of a run's state lives in this value.
pub struct Engine {
    listen: Endpoint,
    target: Endpoint,
    abortable: bool,
    next: u64,
    pairs: PairTable,
    sessions: SessionTable,
    phase: Phase,
    batch: Vec<Ready>,
    cursor: usize,
    datagram: Option<Vec<u8>>,
}

impl View for Engine {
    type V = EngineView;

    closed spec fn view(&self) -> EngineView {
        EngineView {
            listen: self.listen,
            target: self.target,
            abortable: self.abortable,
            next: self.next,
            conns: self.pairs@,
            sessions: self.sessions.by_id(),
            clients: self.sessions.by_client(),
            phase: self.phase,
            pending: self.batch@.skip(self.cursor as int),
            datagram: self.datagram,
        }
    }
}

/// Begins a run that forwards from `listen` to `target`: returns the engine
/// and the first operation to perform. With `abortable`, the engine polls
/// with a short timeout and asks for the abort flag after every poll.
pub fn forward(listen: Endpoint, target: Endpoint, abortable: bool) -> (start: (Engine, Action))
    ensures
        start.0.wf(),
        start.0@ == EngineView::initial(listen, target, abortable),
        start.1 == Action::OpenMultiplexer,
{
    let engine = Engine {
        listen,
        target,
        abortable,
        next: FIRST_DYNAMIC,
        pairs: PairTable::new(),
        sessions: SessionTable::new(),
        phase: Phase::Opening,
        batch: Vec::new(),
        cursor: 0,
        datagram: None,
    };
    proof {
        assert(engine@.pending =~= Seq::<Ready>::empty());
        engine.sessions.lemma_lookups_agree();
    }
    (engine, Action::OpenMultiplexer)
}

impl Engine {
    /// The parts fit together: the session table is well formed and the
    /// batch has not been read past its end.
    pub closed spec fn sound(&self) -> bool {
        &&& self.sessions.wf()
        &&& self.cursor <= self.batch.len()
    }

    /// The engine is in a state that a run can reach.
    pub closed spec fn wf(&self) -> bool {
        &&& self.sound()
        &&& self@.inv()
    }

    /// A well-formed engine's state meets the invariant of the model.
    pub proof fn lemma_wf_inv(&self)
        requires
            self.wf(),
        ensures
            self@.inv(),
    {
    }

    /// What the engine is waiting to hear of.
    pub fn phase(&self) -> (p: Phase)
        ensures
            p == self@.phase,
    {
        self.phase
    }

    /// The next id the engine will hand out.
    pub fn next_token(&self) -> (t: Token)
        ensures
            t == Token(self@.next),
    {
        Token(self.next)
    }

    /// The TCP connection with the given id, if there is one.
    pub fn connection(&self, id: Token) -> (r: Option<TcpConnection>)
        ensures
            r == (if self@.conns.contains_key(id.0) {
                Some(self@.conns[id.0])
            } else {
                None
            }),
    {
        self.pairs.get(id)
    }

    /// The UDP session with the given id, if there is one.
    pub fn session(&self, id: Token) -> (r: Option<UdpSession>)
        requires
            self.wf(),
        ensures
            r == (if self@.sessions.contains_key(id.0) {
                Some(UdpSession { socket: id, addr: self@.sessions[id.0] })
            } else {
                None
            }),
    {
        self.sessions.session(id)
    }

    /// The UDP session that serves `client`, if there is one.
    pub fn session_of(&self, client: Endpoint) -> (r: Option<UdpSession>)
        requires
            self.wf(),
        ensures
            r == (if self@.clients.contains_key(client) {
                Some(UdpSession { socket: Token(self@.clients[client]), addr: client })
            } else {
                None
            }),
    {
        self.sessions.session_of(client)
    }

    /// What the readiness event `ready` calls for in the engine's present
    /// state.
    pub fn classify(&self, ready: Ready) -> (d: Dispatch)
        requires
            self.wf(),
        ensures
            d == self@.classify(ready),
    {
        self.dispatch(ready)
    }

    fn dispatch(&self, ready: Ready) -> (d: Dispatch)
        requires
            self.sound(),
        ensures
            d == self@.classify(ready),
    {
        let readable = match ready.readiness {
            Readiness::Readable => true,
            Readiness::Writable => false,
        };
        let id = ready.token.0;
        if id == TCP_SERVER {
            return if readable {
                Dispatch::Accept
            } else {
                Dispatch::Ignore
            };
        }
        if id == UDP_SERVER {
            return if readable {
                Dispatch::ReceiveClient
            } else {
                Dispatch::Ignore
            };
        }
        match self.pairs.get(ready.token) {
            Some(conn) => match conn.state {
                ConnState::Established => {
                    if !readable {
                        return Dispatch::Ignore;
                    }
                    match self.pairs.get(conn.peer) {
                        Some(peer) => match peer.state {
                            ConnState::Established => Dispatch::Relay(ready.token),
                            _ => Dispatch::Ignore,
                        },
                        None => Dispatch::Ignore,
                    }
                },
                _ => if readable {
                    Dispatch::Ignore
                } else {
                    Dispatch::Establish(ready.token)
                },
            },
            None => match self.sessions.session(ready.token) {
                Some(_) => if readable {
                    Dispatch::ReceiveTarget(ready.token)
                } else {
                    Dispatch::Ignore
                },
                None => Dispatch::Ignore,
            },
        }
    }

    /// Moves to `phase` and hands `action` on.
    fn go(&mut self, phase: Phase, action: Action) -> (next: Action)
        requires
            old(self).sound(),
        ensures
            final(self).sound(),
            (final(self)@, next) == old(self)@.go(phase, action),
    {
        self.phase = phase;
        action
    }

    /// Ends the run with `result`.
    fn stop(&mut self, result: Result<(), Fatal>) -> (next: Action)
        requires
            old(self).sound(),
        ensures
            final(self).sound(),
            (final(self)@, next) == old(self)@.stop(result),
    {
        self.go(Phase::Stopped(result), Action::Stop(result))
    }

    fn poll_timeout(&self) -> (t: Option<u64>)
        ensures
            t == self@.poll_timeout(),
    {
        if self.abortable {
            Some(ABORT_POLL_MS)
        } else {
            None
        }
    }

    /// Takes up the pending events until one calls for an operation.
    fn drain(&mut self) -> (next: Action)
        requires
            old(self).sound(),
            old(self)@.registry_inv(),
        ensures
            final(self).sound(),
            (final(self)@, next) == old(self)@.drain(),
    {
        while self.cursor < self.batch.len()
            invariant
                self.sound(),
                self@.registry_inv(),
                self@.drain() == old(self)@.drain(),
            decreases self.batch.len() - self.cursor,
        {
            let ghost before = self@;
            let ready = self.batch[self.cursor];
            let dispatch = self.dispatch(ready);
            self.cursor = self.cursor + 1;
            proof {
                assert(before.pending[0] == ready);
                assert(self@.pending =~= before.pending.drop_first());
                assert(self@ == EngineView { pending: before.pending.drop_first(), ..before });
            }
            match dispatch {
                Dispatch::Accept => {
                    if self.next <= u64::MAX - 2 {
                        let token = Token(self.next);
                        return self.go(
                            Phase::Accepting,
                            Action::Accept { listener: Token(TCP_SERVER), token },
                        );
                    } else {
                        return self.stop(Err(Fatal::Exhausted));
                    }
                },
                Dispatch::ReceiveClient => {
                    return self.go(
                        Phase::ReceivingClient,
                        Action::ReceiveFrom { token: Token(UDP_SERVER), capacity: BUFFER_SIZE },
                    );
                },
                Dispatch::Establish(token) => {
                    self.pairs.establish(token);
                    return self.go(
                        Phase::Reregistering(token),
                        Action::Reregister { token, interest: Readiness::Readable },
                    );
                },
                Dispatch::Relay(token) => {
                    return self.go(
                        Phase::Reading(token),
                        Action::Read { token, capacity: BUFFER_SIZE },
                    );
                },
                Dispatch::ReceiveTarget(token) => {
                    return self.go(
                        Phase::ReceivingTarget(token),
                        Action::ReceiveFrom { token, capacity: BUFFER_SIZE },
                    );
                },
                Dispatch::Ignore => {},
            }
        }
        let timeout_ms = self.poll_timeout();
        self.go(Phase::Polling, Action::Poll { timeout_ms })
    }

    /// Removes connection `token` together with its peer and has their
    /// sockets released.
    fn teardown(&mut self, token: Token) -> (next: Action)
        requires
            old(self).sound(),
            old(self)@.registry_inv(),
            old(self)@.conns.contains_key(token.0),
        ensures
            final(self).sound(),
            (final(self)@, next) == old(self)@.teardown(token),
    {
        match self.pairs.close_pair(token) {
            Some(peer) => self.go(Phase::Closing, Action::Close { first: token, second: peer }),
            // Not reached: the connection is in the registry.
            None => self.go(Phase::Closing, Action::Close { first: token, second: token }),
        }
    }

    /// Takes the outcome of the operation asked for last and answers with
    /// the operation to perform next.
    ///
    /// While the listening sockets are set up, and for every register,
    /// accept, connect and poll later on, anything but success ends the run
    /// with the matching error; an accept that would block is passed over.
    /// A poll's batch is taken up event by event, after the abort flag has
    /// been read where one is watched. A read of no bytes, a failed read and
    /// a failed write remove the pair; a read that would block is passed
    /// over; bytes read go to the peer as they are. A client's datagram goes
    /// to the target through the client's session, which is made first where
    /// the client is new; the target's datagram goes back to the session's
    /// client through the listening socket. A datagram that could not be
    /// received or sent is passed over.
    pub fn step(&mut self, outcome: Outcome) -> (action: Action)
        requires
            old(self).wf(),
        ensures
            final(self).wf(),
            (final(self)@, action) == old(self)@.step(outcome),
    {
        proof {
            old(self)@.lemma_step_inv(outcome);
        }
        match self.phase {
            Phase::Opening => match outcome {
                Outcome::Done => {
                    let at = self.listen;
                    self.go(Phase::ListeningTcp, Action::ListenTcp { token: Token(TCP_SERVER), at })
                },
                _ => self.stop(Err(Fatal::Multiplexer)),
            },
            Phase::ListeningTcp => match outcome {
                Outcome::Done => self.go(
                    Phase::RegisteringTcp,
                    Action::Register { token: Token(TCP_SERVER), interest: Readiness::Readable },
                ),
                _ => {
                    let at = self.listen;
                    self.stop(Err(Fatal::Listen(at)))
                },
            },
            Phase::RegisteringTcp => match outcome {
                Outcome::Done => {
                    let at = self.listen;
                    self.go(Phase::BindingUdp, Action::BindUdp { token: Token(UDP_SERVER), at })
                },
                _ => self.stop(Err(Fatal::Register(Token(TCP_SERVER)))),
            },
            Phase::BindingUdp => match outcome {
                Outcome::Done => self.go(
                    Phase::RegisteringUdp,
                    Action::Register { token: Token(UDP_SERVER), interest: Readiness::Readable },
                ),
                _ => {
                    let at = self.listen;
                    self.stop(Err(Fatal::Bind(at)))
                },
            },
            Phase::RegisteringUdp => match outcome {
                Outcome::Done => self.drain(),
                _ => self.stop(Err(Fatal::Register(Token(UDP_SERVER)))),
            },
            Phase::Polling => match outcome {
                Outcome::Ready(batch) => {
                    self.batch = batch;
                    self.cursor = 0;
                    assert(self.batch@.skip(0) =~= batch@);
                    if self.abortable {
                        self.go(Phase::CheckingAbort, Action::CheckAbort)
                    } else {
                        self.drain()
                    }
                },
                _ => self.stop(Err(Fatal::Poll)),
            },
            Phase::CheckingAbort => match outcome {
                Outcome::Abort(true) => self.stop(Ok(())),
                _ => self.drain(),
            },
            Phase::Accepting => match outcome {
                Outcome::Done => {
                    let token = Token(self.next);
                    self.go(
                        Phase::RegisteringInbound,
                        Action::Register { token, interest: Readiness::Writable },
                    )
                },
                Outcome::WouldBlock => self.drain(),
                _ => self.stop(Err(Fatal::Accept)),
            },
            Phase::RegisteringInbound => match outcome {
                Outcome::Done => {
                    let token = Token(self.next + 1);
                    let to = self.target;
                    self.go(Phase::Dialing, Action::Connect { token, to })
                },
                _ => {
                    let token = Token(self.next);
                    self.stop(Err(Fatal::Register(token)))
                },
            },
            Phase::Dialing => match outcome {
                Outcome::Done => {
                    let token = Token(self.next + 1);
                    self.go(
                        Phase::RegisteringOutbound,
                        Action::Register { token, interest: Readiness::Writable },
                    )
                },
                _ => {
                    let to = self.target;
                    self.stop(Err(Fatal::Connect(to)))
                },
            },
            Phase::RegisteringOutbound => match outcome {
                Outcome::Done => {
                    let inbound = Token(self.next);
                    let outbound = Token(self.next + 1);
                    self.pairs.open_pair(inbound, outbound);
                    self.next = self.next + 2;
                    proof {
                        lemma_with_pair(old(self)@.conns, inbound.0, outbound.0);
                    }
                    self.drain()
                },
                _ => {
                    let token = Token(self.next + 1);
                    self.stop(Err(Fatal::Register(token)))
                },
            },
            Phase::Reregistering(token) => match outcome {
                Outcome::Done => self.drain(),
                _ => self.stop(Err(Fatal::Register(token))),
            },
            Phase::Reading(token) => match outcome {
                Outcome::Data(data) => {
                    if data.len() == 0 {
                        self.teardown(token)
                    } else {
                        match self.pairs.get(token) {
                            Some(conn) => self.go(
                                Phase::Writing(token),
                                Action::Write { token: conn.peer, data },
                            ),
                            // Not reached: a connection that is read is in
                            // the registry.
                            None => self.drain(),
                        }
                    }
                },
                Outcome::WouldBlock => self.drain(),
                _ => self.teardown(token),
            },
            Phase::Writing(token) => match outcome {
                Outcome::Written(_) => self.drain(),
                Outcome::Done => self.drain(),
                _ => self.teardown(token),
            },
            Phase::Closing => self.drain(),
            Phase::ReceivingClient => match outcome {
                Outcome::Datagram { from, data } => {
                    let to = self.target;
                    match self.sessions.session_of(from) {
                        Some(session) => self.go(
                            Phase::SendingToTarget,
                            Action::SendTo { token: session.socket, to, data },
                        ),
                        None => {
                            if self.next < u64::MAX {
                                let token = Token(self.next);
                                self.datagram = Some(data);
                                self.go(
                                    Phase::BindingSession(from),
                                    Action::BindUdp { token, at: Endpoint::any() },
                                )
                            } else {
                                self.stop(Err(Fatal::Exhausted))
                            }
                        },
                    }
                },
                _ => self.drain(),
            },
            Phase::BindingSession(client) => match outcome {
                Outcome::Done => {
                    let token = Token(self.next);
                    self.go(
                        Phase::RegisteringSession(client),
                        Action::Register { token, interest: Readiness::Readable },
                    )
                },
                _ => self.stop(Err(Fatal::Bind(Endpoint::any()))),
            },
            Phase::RegisteringSession(client) => match outcome {
                Outcome::Done => {
                    let token = Token(self.next);
                    let to = self.target;
                    let stashed = self.datagram.take();
                    proof {
                        self.sessions.lemma_lookups_agree();
                    }
                    self.sessions.insert(token, client);
                    self.next = self.next + 1;
                    match stashed {
                        Some(data) => self.go(
                            Phase::SendingToTarget,
                            Action::SendTo { token, to, data },
                        ),
                        None => self.drain(),
                    }
                },
                _ => {
                    let token = Token(self.next);
                    self.stop(Err(Fatal::Register(token)))
                },
            },
            Phase::SendingToTarget => self.drain(),
            Phase::ReceivingTarget(token) => match outcome {
                Outcome::Datagram { from, data } => match self.sessions.session(token) {
                    Some(session) => self.go(
                        Phase::Replying,
                        Action::SendTo { token: Token(UDP_SERVER), to: session.addr, data },
                    ),
                    // Not reached: a session whose socket is read is in the
                    // table.
                    None => self.drain(),
                },
                _ => self.drain(),
            },
            Phase::Replying => self.drain(),
            Phase::Stopped(result) => Action::Stop(result),
        }
    }
}

} // verus!
