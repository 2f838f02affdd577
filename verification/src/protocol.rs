//! What passes between the engine and its driver: the socket operations the
//! engine asks for, and what the driver reports of each.

use crate::endpoint::{Endpoint, Token};
use vstd::prelude::*;

verus! {

/// The size of the buffer a read or a receive may fill: 8 KiB.
pub const BUFFER_SIZE: usize = 8192;

/// How long a poll may block while an abort flag is being watched, in
/// milliseconds.
pub const ABORT_POLL_MS: u64 = 100;

/// What a socket is ready for, or what the multiplexer is asked to watch
/// a socket for. A socket is watched for one of the two at a time.
#[derive(Copy, Clone, Eq, PartialEq, Debug, Structural)]
pub enum Readiness {
    Readable,
    Writable,
}

/// One ready socket in the batch that a poll returned.
#[derive(Copy, Clone, Eq, PartialEq, Debug, Structural)]
pub struct Ready {
    pub token: Token,
    pub readiness: Readiness,
}

/// An error that ends the run.
#[derive(Copy, Clone, Eq, PartialEq, Debug, Structural)]
pub enum Fatal {
    /// The readiness multiplexer could not be opened.
    Multiplexer,
    /// No TCP listener could be bound at this endpoint.
    Listen(Endpoint),
    /// No UDP socket could be bound at this endpoint.
    Bind(Endpoint),
    /// The multiplexer refused to watch the socket with this id.
    Register(Token),
    /// Waiting for ready sockets failed.
    Poll,
    /// Accepting a client failed, and not because no client was waiting.
    Accept,
    /// The target at this endpoint could not be dialed.
    Connect(Endpoint),
    /// Every id has been handed out.
    Exhausted,
}

/// One operation for the driver to perform. The driver keeps each socket
/// under the token it was made with.
#[derive(Eq, PartialEq, Debug)]
pub enum Action {
    /// Open the readiness multiplexer.
    OpenMultiplexer,
    /// Bind a non-blocking TCP listener at `at` and keep it under `token`.
    ListenTcp { token: Token, at: Endpoint },
    /// Bind a non-blocking UDP socket at `at` and keep it under `token`.
    BindUdp { token: Token, at: Endpoint },
    /// Have the multiplexer watch socket `token` for `interest`.
    Register { token: Token, interest: Readiness },
    /// Replace what socket `token` is watched for by `interest`.
    Reregister { token: Token, interest: Readiness },
    /// Wait for ready sockets: at most `timeout_ms` milliseconds, or without
    /// limit where it is `None`.
    Poll { timeout_ms: Option<u64> },
    /// Read the abort flag.
    CheckAbort,
    /// Accept one client from listener `listener` and keep its socket,
    /// non-blocking, under `token`.
    Accept { listener: Token, token: Token },
    /// Start a non-blocking connect to `to` and keep the socket under `token`.
    Connect { token: Token, to: Endpoint },
    /// Read once from socket `token`, at most `capacity` bytes.
    Read { token: Token, capacity: usize },
    /// Write `data` once to socket `token`.
    Write { token: Token, data: Vec<u8> },
    /// Release the sockets `first` and `second`.
    Close { first: Token, second: Token },
    /// Receive one datagram on socket `token`, at most `capacity` bytes.
    ReceiveFrom { token: Token, capacity: usize },
    /// Send `data` as one datagram to `to` through socket `token`.
    SendTo { token: Token, to: Endpoint, data: Vec<u8> },
    /// The run is over: cleanly after an abort, or with the error that ended
    /// it. Nothing is left to perform.
    Stop(Result<(), Fatal>),
}

/// What the driver reports of the operation it performed last.
#[derive(Eq, PartialEq, Debug)]
pub enum Outcome {
    /// The operation succeeded and has nothing more to tell.
    Done,
    /// The operation would have blocked.
    WouldBlock,
    /// The operation failed for good.
    Failed,
    /// A poll returned this batch of ready sockets, which may be empty.
    Ready(Vec<Ready>),
    /// The abort flag was read; `true` asks the engine to stop.
    Abort(bool),
    /// A read returned these bytes; none at all means that the other end
    /// closed.
    Data(Vec<u8>),
    /// A write took this many bytes.
    Written(usize),
    /// A datagram with this payload arrived from `from`.
    Datagram { from: Endpoint, data: Vec<u8> },
}

/// What the engine is waiting to hear of.
#[derive(Copy, Clone, Eq, PartialEq, Debug)]
pub enum Phase {
    /// The multiplexer is being opened.
    Opening,
    /// The TCP listener is being bound.
    ListeningTcp,
    /// The TCP listener is being registered.
    RegisteringTcp,
    /// The UDP listening socket is being bound.
    BindingUdp,
    /// The UDP listening socket is being registered.
    RegisteringUdp,
    /// A poll is under way.
    Polling,
    /// The abort flag is being read.
    CheckingAbort,
    /// A client is being accepted.
    Accepting,
    /// The accepted socket is being registered.
    RegisteringInbound,
    /// The target is being dialed for the accepted client.
    Dialing,
    /// The dialed socket is being registered.
    RegisteringOutbound,
    /// This connection, now established, is being switched to readable
    /// interest.
    Reregistering(Token),
    /// This connection is being read.
    Reading(Token),
    /// What was read from this connection is being written to its peer.
    Writing(Token),
    /// A pair is being released.
    Closing,
    /// A datagram is being received on the UDP listening socket.
    ReceivingClient,
    /// A socket is being bound for a new session of this client.
    BindingSession(Endpoint),
    /// The socket of this client's new session is being registered.
    RegisteringSession(Endpoint),
    /// A client's datagram is being sent to the target.
    SendingToTarget,
    /// A datagram is being received on this session's socket.
    ReceivingTarget(Token),
    /// The target's datagram is being sent back to the client.
    Replying,
    /// The run is over, with this result.
    Stopped(Result<(), Fatal>),
}

} // verus!
