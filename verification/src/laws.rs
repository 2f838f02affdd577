//! What holds of every run of the engine, proved of the model that the
//! engine's contract is stated over.

use crate::endpoint::{Endpoint, Token, UDP_SERVER};
use crate::model::{Dispatch, EngineView};
use crate::protocol::{Action, Outcome, Phase, Readiness, Ready, ABORT_POLL_MS};
use crate::registry::{
    established, lemma_with_pair, lemma_without_pair, paired, with_established, with_pair,
    ConnState,
};
use vstd::prelude::*;

verus! {

/// The state that `outcomes`, reported one after the other, lead to from
/// `start`.
pub open spec fn run(start: EngineView, outcomes: Seq<Outcome>) -> EngineView
    decreases outcomes.len(),
{
    if outcomes.len() == 0 {
        start
    } else {
        run(start, outcomes.drop_last()).step(outcomes.last()).0
    }
}

/// The action that the last of `outcomes` is answered with.
pub open spec fn last_action(start: EngineView, outcomes: Seq<Outcome>) -> Action
    recommends
        outcomes.len() > 0,
{
    run(start, outcomes.drop_last()).step(outcomes.last()).1
}

/// Whether `action` moves bytes into or out of TCP connection `id`.
pub open spec fn relays(action: Action, id: u64) -> bool {
    match action {
        Action::Read { token, .. } => token.0 == id,
        Action::Write { token, .. } => token.0 == id,
        _ => false,
    }
}

/// Whether `action` is about TCP connection `id`: a read, a write, a change
/// of what it is watched for, or its release.
pub open spec fn concerns(action: Action, id: u64) -> bool {
    match action {
        Action::Read { token, .. } => token.0 == id,
        Action::Write { token, .. } => token.0 == id,
        Action::Reregister { token, .. } => token.0 == id,
        Action::Close { first, second } => first.0 == id || second.0 == id,
        _ => false,
    }
}

/// What a transition may do to the registry: ids in use stay below the next
/// id, which never falls; sessions stay as they are; a connection keeps its
/// peer, stays established once it is, and leaves only together with its
/// peer; an id that was handed out and is not a connection never becomes
/// one.
pub open spec fn evolves(before: EngineView, after: EngineView) -> bool {
    &&& after.next >= before.next
    &&& after.listen == before.listen
    &&& after.target == before.target
    &&& after.abortable == before.abortable
    &&& forall|c: Endpoint| #[trigger]
        before.clients.contains_key(c) ==> after.clients.contains_key(c) && after.clients[c]
            == before.clients[c]
    &&& forall|id: u64| #[trigger]
        before.sessions.contains_key(id) ==> after.sessions.contains_key(id) && after.sessions[id]
            == before.sessions[id]
    &&& forall|id: u64|
        id < before.next && #[trigger] after.sessions.contains_key(id)
            ==> before.sessions.contains_key(id)
    &&& forall|id: u64|
        id < before.next && #[trigger] after.conns.contains_key(id) ==> {
            &&& before.conns.contains_key(id)
            &&& after.conns[id].peer == before.conns[id].peer
            &&& established(before.conns, id) ==> established(after.conns, id)
        }
    &&& forall|id: u64| #[trigger]
        before.conns.contains_key(id) ==> (after.conns.contains_key(id)
            <==> after.conns.contains_key(before.conns[id].peer.0))
}

/// Taking up the pending events changes nothing in the registry but the
/// state of a connection it establishes, reads only from an established
/// connection, and polls with the engine's timeout.
proof fn lemma_drain_effect(s: EngineView)
    requires
        s.registry_inv(),
    ensures
        evolves(s, s.drain().0),
        forall|id: u64| relays(s.drain().1, id) ==> established(s.drain().0.conns, id),
        forall|id: u64| concerns(s.drain().1, id) ==> s.drain().0.conns.contains_key(id),
        s.drain().1 is Poll ==> s.drain().1 == (Action::Poll { timeout_ms: s.poll_timeout() }),
    decreases s.pending.len(),
{
    if s.pending.len() > 0 {
        let rest = EngineView { pending: s.pending.drop_first(), ..s };
        match s.classify(s.pending[0]) {
            Dispatch::Ignore => {
                lemma_drain_effect(rest);
            },
            _ => {},
        }
    }
}

/// What one transition may do to the registry, and which connections its
/// action may move bytes for.
proof fn lemma_step_effect(s: EngineView, outcome: Outcome)
    requires
        s.inv(),
    ensures
        evolves(s, s.step(outcome).0),
        forall|id: u64| relays(s.step(outcome).1, id) ==> established(s.step(outcome).0.conns, id),
        forall|id: u64|
            concerns(s.step(outcome).1, id) ==> s.conns.contains_key(id) || s.step(
                outcome,
            ).0.conns.contains_key(id),
        s.step(outcome).1 is Poll ==> s.step(outcome).1 == (Action::Poll {
            timeout_ms: s.poll_timeout(),
        }),
{
    let after = s.step(outcome).0;
    match s.phase {
        Phase::Opening
        | Phase::ListeningTcp
        | Phase::BindingUdp
        | Phase::RegisteringTcp
        | Phase::Dialing
        | Phase::RegisteringInbound
        | Phase::BindingSession(_)
        | Phase::Stopped(_) => {},
        Phase::RegisteringUdp
        | Phase::CheckingAbort
        | Phase::Accepting
        | Phase::Reregistering(_)
        | Phase::Closing
        | Phase::SendingToTarget
        | Phase::Replying
        | Phase::ReceivingClient
        | Phase::ReceivingTarget(_) => {
            lemma_drain_effect(s);
        },
        Phase::Polling => {
            if let Outcome::Ready(batch) = outcome {
                lemma_drain_effect(EngineView { pending: batch@, ..s });
            }
        },
        Phase::RegisteringOutbound => {
            let inbound = s.next;
            let outbound = (s.next + 1) as u64;
            lemma_with_pair(s.conns, inbound, outbound);
            let opened = EngineView {
                conns: with_pair(s.conns, inbound, outbound),
                next: (s.next + 2) as u64,
                ..s
            };
            lemma_drain_effect(opened);
            if outcome is Done {
                assert(evolves(s, opened));
                lemma_evolves_transitive(s, opened, after);
            }
        },
        Phase::Reading(token) | Phase::Writing(token) => {
            lemma_without_pair(s.conns, token.0);
            lemma_drain_effect(s);
        },
        Phase::RegisteringSession(_) => {},
    }
}

/// Two changes that the registry may undergo make one such change.
proof fn lemma_evolves_transitive(a: EngineView, b: EngineView, c: EngineView)
    requires
        evolves(a, b),
        evolves(b, c),
        a.registry_inv(),
        b.registry_inv(),
    ensures
        evolves(a, c),
{
    assert forall|id: u64| #[trigger] a.conns.contains_key(id) implies (c.conns.contains_key(id)
        <==> c.conns.contains_key(a.conns[id].peer.0)) by {
        let peer = a.conns[id].peer.0;
        assert(a.conns.contains_key(peer));
        if c.conns.contains_key(id) {
            assert(b.conns.contains_key(id));
            assert(b.conns.contains_key(peer));
        }
        if c.conns.contains_key(peer) {
            assert(b.conns.contains_key(peer));
            assert(b.conns.contains_key(id));
        }
    }
    assert forall|id: u64| id < a.next && #[trigger] c.sessions.contains_key(id) implies a.sessions.contains_key(
        id,
    ) by {
        assert(b.sessions.contains_key(id));
    }
    assert forall|id: u64| id < a.next && #[trigger] c.conns.contains_key(id) implies {
        &&& a.conns.contains_key(id)
        &&& c.conns[id].peer == a.conns[id].peer
        &&& established(a.conns, id) ==> established(c.conns, id)
    } by {
        assert(b.conns.contains_key(id));
    }
}

/// Every state of a run meets the invariant, and the registry changes from
/// the start to the end of a run only in the ways that one transition
/// allows.
pub proof fn lemma_run(start: EngineView, outcomes: Seq<Outcome>)
    requires
        start.inv(),
    ensures
        run(start, outcomes).inv(),
        evolves(start, run(start, outcomes)),
    decreases outcomes.len(),
{
    if outcomes.len() > 0 {
        let before = run(start, outcomes.drop_last());
        lemma_run(start, outcomes.drop_last());
        before.lemma_step_inv(outcomes.last());
        lemma_step_effect(before, outcomes.last());
        lemma_evolves_transitive(start, before, run(start, outcomes));
    }
}

/// Every state that a run reaches from an engine's first state meets the
/// invariant.
pub proof fn law_every_run_keeps_invariant(
    listen: Endpoint,
    target: Endpoint,
    abortable: bool,
    outcomes: Seq<Outcome>,
)
    ensures
        run(EngineView::initial(listen, target, abortable), outcomes).inv(),
{
    EngineView::lemma_initial_inv(listen, target, abortable);
    lemma_run(EngineView::initial(listen, target, abortable), outcomes);
}

/// Pairing: in every state of a run each connection's peer is a connection
/// too and names it back, and a transition that removes a connection removes
/// its peer with it.
pub proof fn law_pairs_stay_paired(start: EngineView, outcomes: Seq<Outcome>, outcome: Outcome)
    requires
        start.inv(),
    ensures
        paired(run(start, outcomes).conns),
        forall|id: u64| #[trigger]
            run(start, outcomes).conns.contains_key(id) ==> (run(start, outcomes).step(
                outcome,
            ).0.conns.contains_key(id) <==> run(start, outcomes).step(
                outcome,
            ).0.conns.contains_key(run(start, outcomes).conns[id].peer.0)),
{
    lemma_run(start, outcomes);
    lemma_step_effect(run(start, outcomes), outcome);
}

/// End of stream: when a read of connection `token` returns no bytes, the
/// connection and its peer leave the registry in that one transition, every
/// other connection stays, and the action is to release the two sockets.
pub proof fn law_eof_closes_pair(s: EngineView, token: Token, data: Vec<u8>)
    requires
        s.inv(),
        s.phase == Phase::Reading(token),
        data@.len() == 0,
    ensures
        s.step(Outcome::Data(data)).1 == (Action::Close {
            first: token,
            second: s.conns[token.0].peer,
        }),
        s.step(Outcome::Data(data)).0.conns == s.conns.remove(token.0).remove(
            s.conns[token.0].peer.0,
        ),
        !s.step(Outcome::Data(data)).0.conns.contains_key(token.0),
        !s.step(Outcome::Data(data)).0.conns.contains_key(s.conns[token.0].peer.0),
        s.conns.contains_key(token.0),
        s.conns.contains_key(s.conns[token.0].peer.0),
{
}

/// A connection that has left the registry is left alone: however the run
/// goes on, its id is never a connection again, and no read, write, change
/// of interest or release is asked for its socket.
pub proof fn law_closed_is_left_alone(s: EngineView, id: u64, outcomes: Seq<Outcome>)
    requires
        s.inv(),
        id < s.next,
        !s.conns.contains_key(id),
    ensures
        !run(s, outcomes).conns.contains_key(id),
        outcomes.len() > 0 ==> !concerns(last_action(s, outcomes), id),
{
    lemma_run(s, outcomes);
    if outcomes.len() > 0 {
        let before = run(s, outcomes.drop_last());
        lemma_run(s, outcomes.drop_last());
        lemma_step_effect(before, outcomes.last());
        assert(!before.conns.contains_key(id));
        assert(!before.step(outcomes.last()).0.conns.contains_key(id));
    }
}

/// Ids are not reused: an id that was handed out before a run names, after
/// it, a connection or a session only if it named the same before.
pub proof fn law_ids_are_not_reused(s: EngineView, id: u64, outcomes: Seq<Outcome>)
    requires
        s.inv(),
        id < s.next,
    ensures
        run(s, outcomes).next >= s.next,
        run(s, outcomes).conns.contains_key(id) ==> s.conns.contains_key(id) && run(
            s,
            outcomes,
        ).conns[id].peer == s.conns[id].peer,
        run(s, outcomes).sessions.contains_key(id) ==> s.sessions.contains_key(id) && run(
            s,
            outcomes,
        ).sessions[id] == s.sessions[id],
{
    lemma_run(s, outcomes);
}

/// Writable gating: a read or a write is asked only of a connection that is
/// established, in a pair whose other side is established too.
pub proof fn law_relay_needs_established(s: EngineView, outcome: Outcome, id: u64)
    requires
        s.inv(),
        relays(s.step(outcome).1, id),
    ensures
        established(s.step(outcome).0.conns, id),
        established(s.step(outcome).0.conns, s.step(outcome).0.conns[id].peer.0),
{
    lemma_step_effect(s, outcome);
    s.lemma_step_inv(outcome);
    let after = s.step(outcome).0;
    match s.step(outcome).1 {
        Action::Read { token, .. } => {
            assert(after.phase == Phase::Reading(token)) by {
                lemma_read_means_reading(s, outcome);
            }
        },
        Action::Write { token, .. } => {
            assert(s.phase is Reading && after.conns == s.conns && token
                == s.conns[s.phase->Reading_0.0].peer) by {
                lemma_write_means_read(s, outcome);
            }
        },
        _ => {},
    }
}

/// Only taking up a readable event of an established pair leads to a read.
proof fn lemma_drain_read(s: EngineView)
    ensures
        s.drain().1 is Read ==> s.drain().0.phase == Phase::Reading(s.drain().1->Read_token),
    decreases s.pending.len(),
{
    if s.pending.len() > 0 {
        lemma_drain_read(EngineView { pending: s.pending.drop_first(), ..s });
    }
}

/// Taking up pending events never leads to a write.
proof fn lemma_drain_no_write(s: EngineView)
    ensures
        !(s.drain().1 is Write),
    decreases s.pending.len(),
{
    if s.pending.len() > 0 {
        lemma_drain_no_write(EngineView { pending: s.pending.drop_first(), ..s });
    }
}

/// After a transition that asks for a read, the engine waits for that read.
proof fn lemma_read_means_reading(s: EngineView, outcome: Outcome)
    ensures
        s.step(outcome).1 is Read ==> s.step(outcome).0.phase == Phase::Reading(
            s.step(outcome).1->Read_token,
        ),
{
    lemma_drain_read(s);
    match s.phase {
        Phase::Polling => {
            if let Outcome::Ready(batch) = outcome {
                lemma_drain_read(EngineView { pending: batch@, ..s });
            }
        },
        Phase::RegisteringOutbound => {
            lemma_drain_read(
                EngineView {
                    conns: with_pair(s.conns, s.next, (s.next + 1) as u64),
                    next: (s.next + 2) as u64,
                    ..s
                },
            );
        },
        Phase::RegisteringSession(client) => {
            lemma_drain_read(
                EngineView {
                    sessions: s.sessions.insert(s.next, client),
                    clients: s.clients.insert(client, s.next),
                    next: (s.next + 1) as u64,
                    datagram: None,
                    ..s
                },
            );
        },
        _ => {},
    }
}

/// A write is asked only in answer to a read that returned bytes, and goes
/// to the peer of the connection that was read.
proof fn lemma_write_means_read(s: EngineView, outcome: Outcome)
    ensures
        s.step(outcome).1 is Write ==> {
            &&& s.phase is Reading
            &&& s.step(outcome).0.conns == s.conns
            &&& s.step(outcome).1->Write_token == s.conns[s.phase->Reading_0.0].peer
        },
{
    lemma_drain_no_write(s);
    match s.phase {
        Phase::Polling => {
            if let Outcome::Ready(batch) = outcome {
                lemma_drain_no_write(EngineView { pending: batch@, ..s });
            }
        },
        Phase::RegisteringOutbound => {
            lemma_drain_no_write(
                EngineView {
                    conns: with_pair(s.conns, s.next, (s.next + 1) as u64),
                    next: (s.next + 2) as u64,
                    ..s
                },
            );
        },
        Phase::RegisteringSession(client) => {
            lemma_drain_no_write(
                EngineView {
                    sessions: s.sessions.insert(s.next, client),
                    clients: s.clients.insert(client, s.next),
                    next: (s.next + 1) as u64,
                    datagram: None,
                    ..s
                },
            );
        },
        _ => {},
    }
}

/// Writable gating: the first writable event of a connection only marks it
/// established and switches it to readable interest.
pub proof fn law_first_writable_establishes(s: EngineView, token: Token)
    requires
        s.inv(),
        s.pending.len() > 0,
        s.pending[0] == (Ready { token, readiness: Readiness::Writable }),
        s.conns.contains_key(token.0),
        s.conns[token.0].state != ConnState::Established,
    ensures
        s.drain().1 == (Action::Reregister { token, interest: Readiness::Readable }),
        s.drain().0 == (EngineView {
            conns: with_established(s.conns, token.0),
            pending: s.pending.drop_first(),
            phase: Phase::Reregistering(token),
            ..s
        }),
{
}

/// Session reuse: a datagram from a client that has a session is sent to
/// the target through that session's socket, and no session is made.
pub proof fn law_session_reused(s: EngineView, from: Endpoint, data: Vec<u8>)
    requires
        s.inv(),
        s.phase == Phase::ReceivingClient,
        s.clients.contains_key(from),
    ensures
        s.step(Outcome::Datagram { from, data }).1 == (Action::SendTo {
            token: Token(s.clients[from]),
            to: s.target,
            data,
        }),
        s.step(Outcome::Datagram { from, data }).0 == (EngineView {
            phase: Phase::SendingToTarget,
            ..s
        }),
{
}

/// Session reuse: a session, once made, serves its client for the rest of
/// the run, under the same id.
pub proof fn law_sessions_persist(s: EngineView, outcomes: Seq<Outcome>, client: Endpoint)
    requires
        s.inv(),
        s.clients.contains_key(client),
    ensures
        run(s, outcomes).clients.contains_key(client),
        run(s, outcomes).clients[client] == s.clients[client],
        run(s, outcomes).sessions.contains_key(s.clients[client]),
        run(s, outcomes).sessions[s.clients[client]] == client,
{
    lemma_run(s, outcomes);
}

/// Return routing: a datagram that arrives on a session's socket is sent
/// through the listening socket to the address of the client that the
/// session was made for.
pub proof fn law_reply_returns_to_client(
    s: EngineView,
    session: Token,
    from: Endpoint,
    data: Vec<u8>,
)
    requires
        s.inv(),
        s.phase == Phase::ReceivingTarget(session),
    ensures
        s.step(Outcome::Datagram { from, data }).1 == (Action::SendTo {
            token: Token(UDP_SERVER),
            to: s.sessions[session.0],
            data,
        }),
        s.clients.contains_key(s.sessions[session.0]),
        s.clients[s.sessions[session.0]] == session.0,
{
}

/// Abort: while an abort flag is watched, no poll blocks longer than the
/// short timeout, the flag is read after every poll that returned, and a flag
/// that is set ends the run cleanly at once.
pub proof fn law_abort_is_seen(s: EngineView, outcome: Outcome)
    requires
        s.inv(),
        s.abortable,
    ensures
        s.step(outcome).1 is Poll ==> s.step(outcome).1 == (Action::Poll {
            timeout_ms: Some(ABORT_POLL_MS),
        }),
        s.phase == Phase::Polling && outcome is Ready ==> s.step(outcome).1 == Action::CheckAbort,
        s.phase == Phase::CheckingAbort && outcome == Outcome::Abort(true) ==> s.step(outcome)
            == (EngineView { phase: Phase::Stopped(Ok(())), ..s }, Action::Stop(Ok(()))),
{
    lemma_step_effect(s, outcome);
}

} // verus!
