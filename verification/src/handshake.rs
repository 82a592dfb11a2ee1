//! The handshake by which a replica introduces itself to its master.
//!
//! The replica sends four requests, one after the other, and waits for the
//! reply to each before it sends the next. The functions here decide what
//! to send and how to take a reply; the caller does the sending and the
//! waiting. A reply that is not the expected one ends the handshake for
//! good: nothing is tried again.

use crate::decimal::{decimal, decimal_string};
use crate::format::{encode_request, request};
use crate::parser::ReplConfOption;
use crate::text::{contains_ignore_case, contains_word};
use vstd::prelude::*;

verus! {

/// How far the handshake has come.
#[derive(Debug, Clone, Copy, PartialEq, Eq)]
pub enum HandshakeState {
    /// Nothing has been sent yet.
    Start,
    /// The master has answered `PING`.
    PingSent,
    /// The master has acknowledged the port on which the replica listens.
    PortAcked,
    /// The master has acknowledged the capabilities of the replica.
    CapaAcked,
    /// The master has answered the request for a full resynchronisation.
    /// The handshake is over; what the master sent is not read.
    ResyncRequested,
}

/// Why the handshake ended before it was over.
#[derive(Debug, Clone, PartialEq, Eq)]
pub enum HandshakeError {
    /// The master answered something else than was expected; the text is
    /// its reply.
    InvalidResponse(String),
}

/// What a `ReplConfOption` holds.
pub enum ReplConfOptionView {
    ListeningPort(u16),
    Capability(Seq<char>),
}

impl View for ReplConfOption {
    type V = ReplConfOptionView;

    open spec fn view(&self) -> ReplConfOptionView {
        match self {
            ReplConfOption::ListeningPort(port) => ReplConfOptionView::ListeningPort(*port),
            ReplConfOption::Capability(name) => ReplConfOptionView::Capability(name@),
        }
    }
}

/// The name and the value that announce `option`.
pub open spec fn option_arguments(option: ReplConfOptionView) -> Seq<Seq<char>> {
    match option {
        ReplConfOptionView::ListeningPort(port) => seq!["listening-port"@, decimal(port as nat)],
        ReplConfOptionView::Capability(name) => seq!["capa"@, name],
    }
}

impl ReplConfOption {
    /// The name and the value that announce this option.
    pub fn arguments(&self) -> (args: Vec<String>)
        ensures
            args.deep_view() == option_arguments(self@),
    {
        let mut args: Vec<String> = Vec::new();
        match self {
            ReplConfOption::ListeningPort(port) => {
                args.push(String::from_str("listening-port"));
                args.push(decimal_string(*port as u128));
            },
            ReplConfOption::Capability(name) => {
                args.push(String::from_str("capa"));
                args.push(name.clone());
            },
        }
        assert(args.deep_view() =~= option_arguments(self@));
        args
    }
}

/// The request that a replica listening on `port` sends in `state`, if the
/// handshake is not over.
pub open spec fn handshake_request(state: HandshakeState, port: u16) -> Option<Seq<char>> {
    match state {
        HandshakeState::Start => Some(request("PING"@, seq![])),
        HandshakeState::PingSent => Some(
            request("REPLCONF"@, option_arguments(ReplConfOptionView::ListeningPort(port))),
        ),
        HandshakeState::PortAcked => Some(
            request("REPLCONF"@, option_arguments(ReplConfOptionView::Capability("psync2"@))),
        ),
        HandshakeState::CapaAcked => Some(request("PSYNC"@, seq!["?"@, "-1"@])),
        HandshakeState::ResyncRequested => None,
    }
}

/// `reply` is what the request of `state` expects: `pong` somewhere in the
/// answer to `PING`, `ok` somewhere in the answer to either `REPLCONF`, in
/// any mix of upper and lower case; to `PSYNC`, any answer.
pub open spec fn reply_expected(state: HandshakeState, reply: Seq<char>) -> bool {
    match state {
        HandshakeState::Start => contains_word(reply, "pong"@),
        HandshakeState::PingSent => contains_word(reply, "ok"@),
        HandshakeState::PortAcked => contains_word(reply, "ok"@),
        HandshakeState::CapaAcked => true,
        HandshakeState::ResyncRequested => true,
    }
}

/// The state that follows `state`. Nothing follows the last.
pub open spec fn successor(state: HandshakeState) -> HandshakeState {
    match state {
        HandshakeState::Start => HandshakeState::PingSent,
        HandshakeState::PingSent => HandshakeState::PortAcked,
        HandshakeState::PortAcked => HandshakeState::CapaAcked,
        HandshakeState::CapaAcked => HandshakeState::ResyncRequested,
        HandshakeState::ResyncRequested => HandshakeState::ResyncRequested,
    }
}

/// Where `reply` takes the handshake from `state`, or the reply itself if
/// it ends the handshake.
pub open spec fn handshake_step(state: HandshakeState, reply: Seq<char>) -> Result<
    HandshakeState,
    Seq<char>,
> {
    if reply_expected(state, reply) {
        Ok(successor(state))
    } else {
        Err(reply)
    }
}

impl HandshakeState {
    /// Tells whether the handshake is over.
    pub fn is_complete(&self) -> (r: bool)
        ensures
            r == (*self == HandshakeState::ResyncRequested),
    {
        match self {
            HandshakeState::ResyncRequested => true,
            _ => false,
        }
    }

    /// The request to send in this state, for a replica that listens on
    /// `port`; none when the handshake is over.
    pub fn request(&self, port: u16) -> (r: Option<String>)
        ensures
            match r {
                Some(frame) => handshake_request(*self, port) == Some(frame@),
                None => handshake_request(*self, port) is None,
            },
    {
        match self {
            HandshakeState::Start => {
                let args: Vec<String> = Vec::new();
                assert(args.deep_view() =~= Seq::<Seq<char>>::empty());
                Some(encode_request("PING", &args))
            },
            HandshakeState::PingSent => {
                let args = ReplConfOption::ListeningPort(port).arguments();
                Some(encode_request("REPLCONF", &args))
            },
            HandshakeState::PortAcked => {
                let args = ReplConfOption::Capability(String::from_str("psync2")).arguments();
                Some(encode_request("REPLCONF", &args))
            },
            HandshakeState::CapaAcked => {
                let mut args: Vec<String> = Vec::new();
                args.push(String::from_str("?"));
                args.push(String::from_str("-1"));
                assert(args.deep_view() =~= seq!["?"@, "-1"@]);
                Some(encode_request("PSYNC", &args))
            },
            HandshakeState::ResyncRequested => None,
        }
    }

    /// Takes the reply to the request of this state.
    pub fn advance(&self, reply: &str) -> (r: Result<HandshakeState, HandshakeError>)
        ensures
            match r {
                Ok(next) => handshake_step(*self, reply@) == Ok::<HandshakeState, Seq<char>>(next),
                Err(HandshakeError::InvalidResponse(text)) => handshake_step(*self, reply@)
                    == Err::<HandshakeState, Seq<char>>(text@),
            },
    {
        let expected: bool = match self {
            HandshakeState::Start => contains_ignore_case(reply, "pong"),
            HandshakeState::PingSent => contains_ignore_case(reply, "ok"),
            HandshakeState::PortAcked => contains_ignore_case(reply, "ok"),
            HandshakeState::CapaAcked => true,
            HandshakeState::ResyncRequested => true,
        };
        if !expected {
            return Err(HandshakeError::InvalidResponse(String::from_str(reply)));
        }
        Ok(
            match self {
                HandshakeState::Start => HandshakeState::PingSent,
                HandshakeState::PingSent => HandshakeState::PortAcked,
                HandshakeState::PortAcked => HandshakeState::CapaAcked,
                HandshakeState::CapaAcked => HandshakeState::ResyncRequested,
                HandshakeState::ResyncRequested => HandshakeState::ResyncRequested,
            },
        )
    }
}

/// A master that answers as expected takes the replica through the whole
/// handshake in four replies, whatever the fourth one is.
pub proof fn lemma_handshake_completes(
    pong: Seq<char>,
    port_ack: Seq<char>,
    capa_ack: Seq<char>,
    resync: Seq<char>,
)
    requires
        contains_word(pong, "pong"@),
        contains_word(port_ack, "ok"@),
        contains_word(capa_ack, "ok"@),
    ensures
        handshake_step(HandshakeState::Start, pong) == Ok::<HandshakeState, Seq<char>>(
            HandshakeState::PingSent,
        ),
        handshake_step(HandshakeState::PingSent, port_ack) == Ok::<HandshakeState, Seq<char>>(
            HandshakeState::PortAcked,
        ),
        handshake_step(HandshakeState::PortAcked, capa_ack) == Ok::<HandshakeState, Seq<char>>(
            HandshakeState::CapaAcked,
        ),
        handshake_step(HandshakeState::CapaAcked, resync) == Ok::<HandshakeState, Seq<char>>(
            HandshakeState::ResyncRequested,
        ),
        handshake_request(HandshakeState::ResyncRequested, 0) is None,
{
}

} // verus!
