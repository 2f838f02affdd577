//! The forwarding engine as a state machine over mathematical values: its
//! state, the transition that one reported outcome causes, and the invariant
//! that every transition keeps.

use crate::endpoint::{Endpoint, Token, FIRST_DYNAMIC, TCP_SERVER, UDP_SERVER};
use crate::protocol::{
    Action, Fatal, Outcome, Phase, Readiness, Ready, ABORT_POLL_MS, BUFFER_SIZE,
};
use crate::registry::{
    established, lemma_with_established, lemma_with_pair, lemma_without_pair, paired,
    with_established, with_pair, without_pair, ConnState, TcpConnection,
};
use crate::sessions::sessions_agree;
use vstd::prelude::*;

verus! {

/// What one readiness event calls for, decided once against the registry.
#[derive(Copy, Clone, Eq, PartialEq, Debug, Structural)]
pub enum Dispatch {
    /// The TCP listener is readable: accept a client.
    Accept,
    /// The UDP listening socket is readable: receive a client's datagram.
    ReceiveClient,
    /// A connection that is not established yet is writable: establish it.
    Establish(Token),
    /// An established connection whose peer is established too is readable:
    /// relay from it.
    Relay(Token),
    /// A session's socket is readable: receive the target's datagram.
    ReceiveTarget(Token),
    /// Nothing to do for this event.
    Ignore,
}

/// The state of a forwarding engine.
pub struct EngineView {
    /// Where clients are listened for.
    pub listen: Endpoint,
    /// Where everything is forwarded to.
    pub target: Endpoint,
    /// Whether an abort flag is watched.
    pub abortable: bool,
    /// The next id to hand out.
    pub next: u64,
    /// The TCP connections, by id.
    pub conns: Map<u64, TcpConnection>,
    /// The client address of each UDP session, by session id.
    pub sessions: Map<u64, Endpoint>,
    /// The session id of each client that has a session.
    pub clients: Map<Endpoint, u64>,
    /// What the engine is waiting to hear of.
    pub phase: Phase,
    /// The events of the current batch that have not been looked at yet.
    pub pending: Seq<Ready>,
    /// The datagram that waits for its client's session to be set up.
    pub datagram: Option<Vec<u8>>,
}

impl EngineView {
    /// The state of an engine that has not done anything yet.
    pub open spec fn initial(listen: Endpoint, target: Endpoint, abortable: bool) -> EngineView {
        EngineView {
            listen,
            target,
            abortable,
            next: FIRST_DYNAMIC,
            conns: Map::empty(),
            sessions: Map::empty(),
            clients: Map::empty(),
            phase: Phase::Opening,
            pending: Seq::empty(),
            datagram: None,
        }
    }

    /// How long a poll may block: briefly while an abort flag is watched,
    /// else without limit.
    pub open spec fn poll_timeout(self) -> Option<u64> {
        if self.abortable {
            Some(ABORT_POLL_MS)
        } else {
            None
        }
    }

    /// What the readiness event `ready` calls for in this state.
    pub open spec fn classify(self, ready: Ready) -> Dispatch {
        let id = ready.token.0;
        if id == TCP_SERVER {
            if ready.readiness == Readiness::Readable {
                Dispatch::Accept
            } else {
                Dispatch::Ignore
            }
        } else if id == UDP_SERVER {
            if ready.readiness == Readiness::Readable {
                Dispatch::ReceiveClient
            } else {
                Dispatch::Ignore
            }
        } else if self.conns.contains_key(id) {
            if self.conns[id].state != ConnState::Established {
                if ready.readiness == Readiness::Writable {
                    Dispatch::Establish(ready.token)
                } else {
                    Dispatch::Ignore
                }
            } else if ready.readiness == Readiness::Readable && established(
                self.conns,
                self.conns[id].peer.0,
            ) {
                Dispatch::Relay(ready.token)
            } else {
                Dispatch::Ignore
            }
        } else if self.sessions.contains_key(id) {
            if ready.readiness == Readiness::Readable {
                Dispatch::ReceiveTarget(ready.token)
            } else {
                Dispatch::Ignore
            }
        } else {
            Dispatch::Ignore
        }
    }

    /// This state with another phase, and the action that goes with it.
    pub open spec fn go(self, phase: Phase, action: Action) -> (EngineView, Action) {
        (EngineView { phase, ..self }, action)
    }

    /// The run ends with `result`.
    pub open spec fn stop(self, result: Result<(), Fatal>) -> (EngineView, Action) {
        self.go(Phase::Stopped(result), Action::Stop(result))
    }

    /// Whether two more ids can be handed out.
    pub open spec fn has_two_ids(self) -> bool {
        self.next <= u64::MAX - 2
    }

    /// Whether one more id can be handed out.
    pub open spec fn has_one_id(self) -> bool {
        self.next < u64::MAX
    }

    /// Takes up the pending events in order, passing over those that call
    /// for nothing, and starts on the first that calls for something. With
    /// none left, the next poll begins.
    pub open spec fn drain(self) -> (EngineView, Action)
        decreases self.pending.len(),
    {
        if self.pending.len() == 0 {
            self.go(Phase::Polling, Action::Poll { timeout_ms: self.poll_timeout() })
        } else {
            let rest = EngineView { pending: self.pending.drop_first(), ..self };
            match self.classify(self.pending[0]) {
                Dispatch::Accept => if self.has_two_ids() {
                    rest.go(
                        Phase::Accepting,
                        Action::Accept { listener: Token(TCP_SERVER), token: Token(self.next) },
                    )
                } else {
                    rest.stop(Err(Fatal::Exhausted))
                },
                Dispatch::ReceiveClient => rest.go(
                    Phase::ReceivingClient,
                    Action::ReceiveFrom { token: Token(UDP_SERVER), capacity: BUFFER_SIZE },
                ),
                Dispatch::Establish(token) => EngineView {
                    conns: with_established(self.conns, token.0),
                    ..rest
                }.go(
                    Phase::Reregistering(token),
                    Action::Reregister { token, interest: Readiness::Readable },
                ),
                Dispatch::Relay(token) => rest.go(
                    Phase::Reading(token),
                    Action::Read { token, capacity: BUFFER_SIZE },
                ),
                Dispatch::ReceiveTarget(token) => rest.go(
                    Phase::ReceivingTarget(token),
                    Action::ReceiveFrom { token, capacity: BUFFER_SIZE },
                ),
                Dispatch::Ignore => rest.drain(),
            }
        }
    }

    /// Connection `token` and its peer leave the registry together, and
    /// their sockets are released.
    pub open spec fn teardown(self, token: Token) -> (EngineView, Action) {
        EngineView { conns: without_pair(self.conns, token.0), ..self }.go(
            Phase::Closing,
            Action::Close { first: token, second: self.conns[token.0].peer },
        )
    }

    /// The state after `outcome` has been reported, and the action to
    /// perform next.
    pub open spec fn step(self, outcome: Outcome) -> (EngineView, Action) {
        let inbound = Token(self.next);
        let outbound = Token((self.next + 1) as u64);
        match self.phase {
            Phase::Opening => if outcome is Done {
                self.go(
                    Phase::ListeningTcp,
                    Action::ListenTcp { token: Token(TCP_SERVER), at: self.listen },
                )
            } else {
                self.stop(Err(Fatal::Multiplexer))
            },
            Phase::ListeningTcp => if outcome is Done {
                self.go(
                    Phase::RegisteringTcp,
                    Action::Register { token: Token(TCP_SERVER), interest: Readiness::Readable },
                )
            } else {
                self.stop(Err(Fatal::Listen(self.listen)))
            },
            Phase::RegisteringTcp => if outcome is Done {
                self.go(
                    Phase::BindingUdp,
                    Action::BindUdp { token: Token(UDP_SERVER), at: self.listen },
                )
            } else {
                self.stop(Err(Fatal::Register(Token(TCP_SERVER))))
            },
            Phase::BindingUdp => if outcome is Done {
                self.go(
                    Phase::RegisteringUdp,
                    Action::Register { token: Token(UDP_SERVER), interest: Readiness::Readable },
                )
            } else {
                self.stop(Err(Fatal::Bind(self.listen)))
            },
            Phase::RegisteringUdp => if outcome is Done {
                self.drain()
            } else {
                self.stop(Err(Fatal::Register(Token(UDP_SERVER))))
            },
            Phase::Polling => match outcome {
                Outcome::Ready(batch) => {
                    let filled = EngineView { pending: batch@, ..self };
                    if self.abortable {
                        filled.go(Phase::CheckingAbort, Action::CheckAbort)
                    } else {
                        filled.drain()
                    }
                },
                _ => self.stop(Err(Fatal::Poll)),
            },
            Phase::CheckingAbort => if outcome == Outcome::Abort(true) {
                self.stop(Ok(()))
            } else {
                self.drain()
            },
            Phase::Accepting => match outcome {
                Outcome::Done => self.go(
                    Phase::RegisteringInbound,
                    Action::Register { token: inbound, interest: Readiness::Writable },
                ),
                Outcome::WouldBlock => self.drain(),
                _ => self.stop(Err(Fatal::Accept)),
            },
            Phase::RegisteringInbound => if outcome is Done {
                self.go(Phase::Dialing, Action::Connect { token: outbound, to: self.target })
            } else {
                self.stop(Err(Fatal::Register(inbound)))
            },
            Phase::Dialing => if outcome is Done {
                self.go(
                    Phase::RegisteringOutbound,
                    Action::Register { token: outbound, interest: Readiness::Writable },
                )
            } else {
                self.stop(Err(Fatal::Connect(self.target)))
            },
            Phase::RegisteringOutbound => if outcome is Done {
                EngineView {
                    conns: with_pair(self.conns, inbound.0, outbound.0),
                    next: (self.next + 2) as u64,
                    ..self
                }.drain()
            } else {
                self.stop(Err(Fatal::Register(outbound)))
            },
            Phase::Reregistering(token) => if outcome is Done {
                self.drain()
            } else {
                self.stop(Err(Fatal::Register(token)))
            },
            Phase::Reading(token) => match outcome {
                Outcome::Data(data) => if data@.len() == 0 {
                    self.teardown(token)
                } else {
                    self.go(
                        Phase::Writing(token),
                        Action::Write { token: self.conns[token.0].peer, data },
                    )
                },
                Outcome::WouldBlock => self.drain(),
                _ => self.teardown(token),
            },
            Phase::Writing(token) => match outcome {
                Outcome::Written(_) => self.drain(),
                Outcome::Done => self.drain(),
                _ => self.teardown(token),
            },
            Phase::Closing => self.drain(),
            Phase::ReceivingClient => match outcome {
                Outcome::Datagram { from, data } => if self.clients.contains_key(from) {
                    self.go(
                        Phase::SendingToTarget,
                        Action::SendTo { token: Token(self.clients[from]), to: self.target, data },
                    )
                } else if self.has_one_id() {
                    EngineView { datagram: Some(data), ..self }.go(
                        Phase::BindingSession(from),
                        Action::BindUdp { token: Token(self.next), at: Endpoint::unspecified() },
                    )
                } else {
                    self.stop(Err(Fatal::Exhausted))
                },
                _ => self.drain(),
            },
            Phase::BindingSession(client) => if outcome is Done {
                self.go(
                    Phase::RegisteringSession(client),
                    Action::Register { token: Token(self.next), interest: Readiness::Readable },
                )
            } else {
                self.stop(Err(Fatal::Bind(Endpoint::unspecified())))
            },
            Phase::RegisteringSession(client) => if outcome is Done {
                let served = EngineView {
                    sessions: self.sessions.insert(self.next, client),
                    clients: self.clients.insert(client, self.next),
                    next: (self.next + 1) as u64,
                    datagram: None,
                    ..self
                };
                match self.datagram {
                    Some(data) => served.go(
                        Phase::SendingToTarget,
                        Action::SendTo { token: Token(self.next), to: self.target, data },
                    ),
                    None => served.drain(),
                }
            } else {
                self.stop(Err(Fatal::Register(Token(self.next))))
            },
            Phase::SendingToTarget => self.drain(),
            Phase::ReceivingTarget(token) => match outcome {
                Outcome::Datagram { from, data } => self.go(
                    Phase::Replying,
                    Action::SendTo { token: Token(UDP_SERVER), to: self.sessions[token.0], data },
                ),
                _ => self.drain(),
            },
            Phase::Replying => self.drain(),
            Phase::Stopped(result) => (self, Action::Stop(result)),
        }
    }

    /// What the phase takes for granted of the rest of the state.
    pub open spec fn phase_inv(self) -> bool {
        match self.phase {
            Phase::Accepting
            | Phase::RegisteringInbound
            | Phase::Dialing
            | Phase::RegisteringOutbound => self.has_two_ids(),
            Phase::Reading(token) | Phase::Writing(token) => {
                &&& established(self.conns, token.0)
                &&& established(self.conns, self.conns[token.0].peer.0)
            },
            Phase::BindingSession(client) | Phase::RegisteringSession(client) => {
                &&& self.has_one_id()
                &&& !self.clients.contains_key(client)
                &&& self.datagram is Some
            },
            Phase::ReceivingTarget(token) => self.sessions.contains_key(token.0),
            _ => true,
        }
    }

    /// What holds of the registry in every state an engine can be in:
    /// connections are paired, the two session lookups agree, every id in use
    /// was handed out and serves one purpose only.
    pub open spec fn registry_inv(self) -> bool {
        &&& self.next >= FIRST_DYNAMIC
        &&& paired(self.conns)
        &&& forall|id: u64| #[trigger]
            self.conns.contains_key(id) ==> FIRST_DYNAMIC <= id < self.next
        &&& forall|id: u64| #[trigger]
            self.sessions.contains_key(id) ==> FIRST_DYNAMIC <= id < self.next
                && !self.conns.contains_key(id)
        &&& sessions_agree(self.sessions, self.clients)
    }

    /// What holds of every state an engine can be in.
    pub open spec fn inv(self) -> bool {
        &&& self.registry_inv()
        &&& self.phase_inv()
    }

    /// An engine starts in a state that meets the invariant.
    pub proof fn lemma_initial_inv(listen: Endpoint, target: Endpoint, abortable: bool)
        ensures
            EngineView::initial(listen, target, abortable).inv(),
    {
    }

    /// Taking up the pending events leads to a state that meets the
    /// invariant, whatever the phase was before.
    pub proof fn lemma_drain_inv(self)
        requires
            self.registry_inv(),
        ensures
            self.drain().0.inv(),
        decreases self.pending.len(),
    {
        if self.pending.len() > 0 {
            let rest = EngineView { pending: self.pending.drop_first(), ..self };
            match self.classify(self.pending[0]) {
                Dispatch::Establish(token) => {
                    lemma_with_established(self.conns, token.0);
                },
                Dispatch::Ignore => {
                    rest.lemma_drain_inv();
                },
                _ => {},
            }
        }
    }

    /// Every transition leads from a state that meets the invariant to one
    /// that meets it.
    pub proof fn lemma_step_inv(self, outcome: Outcome)
        requires
            self.inv(),
        ensures
            self.step(outcome).0.inv(),
    {
        match self.phase {
            Phase::Opening
            | Phase::ListeningTcp
            | Phase::BindingUdp
            | Phase::RegisteringTcp
            | Phase::Dialing
            | Phase::RegisteringInbound
            | Phase::BindingSession(_)
            | Phase::Stopped(_) => {},
            Phase::RegisteringUdp
            | Phase::CheckingAbort
            | Phase::Accepting
            | Phase::Reregistering(_)
            | Phase::Closing
            | Phase::SendingToTarget
            | Phase::Replying => {
                self.lemma_drain_inv();
            },
            Phase::Polling => {
                if let Outcome::Ready(batch) = outcome {
                    EngineView { pending: batch@, ..self }.lemma_drain_inv();
                }
            },
            Phase::RegisteringOutbound => {
                lemma_with_pair(self.conns, self.next, (self.next + 1) as u64);
                EngineView {
                    conns: with_pair(self.conns, self.next, (self.next + 1) as u64),
                    next: (self.next + 2) as u64,
                    ..self
                }.lemma_drain_inv();
            },
            Phase::Reading(token) | Phase::Writing(token) => {
                lemma_without_pair(self.conns, token.0);
                self.lemma_drain_inv();
            },
            Phase::ReceivingClient | Phase::ReceivingTarget(_) => {
                self.lemma_drain_inv();
            },
            Phase::RegisteringSession(client) => {
                let served = EngineView {
                    sessions: self.sessions.insert(self.next, client),
                    clients: self.clients.insert(client, self.next),
                    next: (self.next + 1) as u64,
                    datagram: None,
                    ..self
                };
                assert(served.registry_inv()) by {
                    assert forall|c: Endpoint| #[trigger]
                        served.clients.contains_key(c) implies served.sessions.contains_key(
                        served.clients[c],
                    ) && served.sessions[served.clients[c]] == c by {
                        if c != client {
                            assert(self.clients.contains_key(c));
                        }
                    }
                    assert forall|id: u64| #[trigger]
                        served.sessions.contains_key(id) implies served.clients.contains_key(
                        served.sessions[id],
                    ) && served.clients[served.sessions[id]] == id by {
                        if id != self.next {
                            assert(self.sessions.contains_key(id));
                        }
                    }
                }
                served.lemma_drain_inv();
            },
        }
    }
}

} // verus!
