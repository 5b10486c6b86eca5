//! The handshake of a query as a state machine without a transport.
//!
//! The caller owns the channel. It reports what the channel did as a
//! [`QueryEvent`] and carries out the [`QueryAction`] that comes back, until
//! the action is to finish.
use vstd::prelude::*;
use crate::error::SourceQueryError;
use crate::info::{parses_to, ServerInfo};
use crate::packet::{decoded, PacketType, RequestPacket, ResponsePacket};

verus! {

/// The seconds that each step on the channel is given where the caller names
/// no deadline of its own.
pub const DEFAULT_TIMEOUT_SECS: u64 = 5;

/// Where a query stands.
#[derive(Debug, PartialEq, Eq, Structural, Clone, Copy)]
pub enum QueryState {
    /// Nothing has been sent; the channel is being set up.
    Idle,
    /// The plain request is out.
    AwaitingInitialResponse,
    /// The request that carries the challenge token is out.
    AwaitingChallengedResponse,
    /// The query is over.
    Done,
}

/// The step on the channel that failed.
#[derive(Debug, PartialEq, Eq, Structural, Clone, Copy)]
pub enum TransportFailure {
    /// No local endpoint could be bound.
    Bind,
    /// The channel could not be connected to the host.
    Connect,
    /// The request could not be sent.
    Send,
    /// No datagram could be received.
    Receive,
    /// The deadline passed first.
    Timeout,
}

/// What the channel reports to the state machine.
#[derive(Debug, PartialEq, Eq)]
pub enum QueryEvent {
    /// The channel is bound and connected to the host.
    Connected,
    /// The request went out and this datagram came back.
    Received(Vec<u8>),
    /// A step on the channel failed.
    Failed(TransportFailure),
}

/// What the state machine asks of the caller.
#[derive(Debug, PartialEq, Eq)]
pub enum QueryAction {
    /// Send these bytes, then wait for one datagram.
    Send(Vec<u8>),
    /// Stop: this is the query's result.
    Finish(Result<ServerInfo, SourceQueryError>),
}

impl TransportFailure {
    /// The error that a failed step ends the query with.
    pub open spec fn error_of(self) -> SourceQueryError {
        match self {
            TransportFailure::Bind => SourceQueryError::FailedPortBind,
            TransportFailure::Connect => SourceQueryError::UnreachableHost,
            TransportFailure::Send => SourceQueryError::SendError,
            TransportFailure::Receive => SourceQueryError::ReceiveError,
            TransportFailure::Timeout => SourceQueryError::TimeoutError,
        }
    }

    /// The error that this failure ends the query with.
    pub fn error(self) -> (e: SourceQueryError)
        ensures
            e == self.error_of(),
    {
        match self {
            TransportFailure::Bind => SourceQueryError::FailedPortBind,
            TransportFailure::Connect => SourceQueryError::UnreachableHost,
            TransportFailure::Send => SourceQueryError::SendError,
            TransportFailure::Receive => SourceQueryError::ReceiveError,
            TransportFailure::Timeout => SourceQueryError::TimeoutError,
        }
    }
}

/// What a step gives for an event that the state expects: the next state
/// and the action.
///
/// A failure of the channel ends the query with the failure's error. So does
/// a datagram that does not decode, with the decoder's error. A challenge in
/// answer to the plain request is answered with a request that carries its
/// token. Anything but the server information in answer to that second
/// request makes the host fussy. Every other packet goes to the server-info
/// decoder, whose result is the query's.
pub open spec fn step_spec(
    state: QueryState,
    event: QueryEvent,
    host: Seq<char>,
    next: QueryState,
    action: QueryAction,
) -> bool {
    match event {
        QueryEvent::Failed(failure) => {
            &&& next == QueryState::Done
            &&& action matches QueryAction::Finish(Err(e))
            &&& e == failure.error_of()
        },
        QueryEvent::Connected => {
            &&& next == QueryState::AwaitingInitialResponse
            &&& action matches QueryAction::Send(bytes)
            &&& bytes@ == RequestPacket::spec_new(None).wire()
        },
        QueryEvent::Received(datagram) => match decoded(datagram@) {
            Err(failure) => {
                &&& next == QueryState::Done
                &&& action matches QueryAction::Finish(Err(e))
                &&& e == failure
            },
            Ok(packet) => if state == QueryState::AwaitingInitialResponse && packet.packet_type
                == PacketType::Challenge {
                &&& next == QueryState::AwaitingChallengedResponse
                &&& action matches QueryAction::Send(bytes)
                &&& bytes@ == RequestPacket::spec_new(Some(packet.body)).wire()
            } else if state == QueryState::AwaitingChallengedResponse && packet.packet_type
                != PacketType::Response {
                &&& next == QueryState::Done
                &&& action matches QueryAction::Finish(Err(SourceQueryError::FussyHost(name)))
                &&& name@ == host
            } else {
                &&& next == QueryState::Done
                &&& action matches QueryAction::Finish(result)
                &&& parses_to(packet, result)
            },
        },
    }
}

impl QueryState {
    /// How far the query has come: each step moves it on.
    pub open spec fn rank(self) -> nat {
        match self {
            QueryState::Idle => 0,
            QueryState::AwaitingInitialResponse => 1,
            QueryState::AwaitingChallengedResponse => 2,
            QueryState::Done => 3,
        }
    }

    /// Whether `event` can occur in this state: the channel comes up only
    /// once, before anything is sent; a datagram answers a request that is
    /// out; a failure can end any query that is not over.
    pub open spec fn expects(self, event: QueryEvent) -> bool {
        match event {
            QueryEvent::Connected => self == QueryState::Idle,
            QueryEvent::Received(_) => self == QueryState::AwaitingInitialResponse || self
                == QueryState::AwaitingChallengedResponse,
            QueryEvent::Failed(_) => self != QueryState::Done,
        }
    }

    /// Whether `event` can occur in this state.
    pub fn accepts(&self, event: &QueryEvent) -> (b: bool)
        ensures
            b == self.expects(*event),
    {
        match event {
            QueryEvent::Connected => *self == QueryState::Idle,
            QueryEvent::Received(_) => *self == QueryState::AwaitingInitialResponse || *self
                == QueryState::AwaitingChallengedResponse,
            QueryEvent::Failed(_) => *self != QueryState::Done,
        }
    }

    /// Takes the query one step on: from what the channel reported to what
    /// is to be done next. `host` names the server in the error for a host
    /// that challenges twice. An event that cannot occur in this state has
    /// no step.
    ///
    /// Every step moves the query forward, and it asks for another exchange
    /// exactly when the query is not over thereby. So no query takes more
    /// than three steps, and none sends more than two requests.
    pub fn step(self, event: QueryEvent, host: &str) -> (r: Option<(QueryState, QueryAction)>)
        ensures
            r is Some <==> self.expects(event),
            r matches Some((next, action)) ==> {
                &&& step_spec(self, event, host@, next, action)
                &&& next.rank() > self.rank()
                &&& action is Send <==> next != QueryState::Done
            },
    {
        if !self.accepts(&event) {
            return None;
        }
        Some(
            match event {
                QueryEvent::Failed(failure) => (
                    QueryState::Done,
                    QueryAction::Finish(Err(failure.error())),
                ),
                QueryEvent::Connected => (
                    QueryState::AwaitingInitialResponse,
                    QueryAction::Send(RequestPacket::new(None).pack()),
                ),
                QueryEvent::Received(datagram) => match ResponsePacket::decode(
                    datagram.as_slice(),
                ) {
                    Err(e) => (QueryState::Done, QueryAction::Finish(Err(e))),
                    Ok(packet) => {
                        let packet_type: PacketType = *packet.packet_type();
                        if self == QueryState::AwaitingInitialResponse && packet_type
                            == PacketType::Challenge {
                            let request = RequestPacket::new(Some(packet.body()));
                            (
                                QueryState::AwaitingChallengedResponse,
                                QueryAction::Send(request.pack()),
                            )
                        } else if self == QueryState::AwaitingChallengedResponse && packet_type
                            != PacketType::Response {
                            (
                                QueryState::Done,
                                QueryAction::Finish(
                                    Err(SourceQueryError::FussyHost(host.to_owned())),
                                ),
                            )
                        } else {
                            (QueryState::Done, QueryAction::Finish(ServerInfo::parse(packet)))
                        }
                    },
                },
            },
        )
    }
}

/// A host that answers the token of its own challenge with another
/// challenge is fussy. Whatever the two datagrams hold besides: the first
/// challenge is answered with a request that carries its token, the second
/// ends the query with an error that names the host, and no body is decoded
/// as server information.
pub proof fn lemma_second_challenge_is_fussy(
    first: Vec<u8>,
    second: Vec<u8>,
    host: Seq<char>,
    middle: (QueryState, QueryAction),
    end: (QueryState, QueryAction),
)
    requires
        decoded(first@) matches Ok(packet) && packet.packet_type == PacketType::Challenge,
        decoded(second@) matches Ok(packet) && packet.packet_type == PacketType::Challenge,
        step_spec(
            QueryState::AwaitingInitialResponse,
            QueryEvent::Received(first),
            host,
            middle.0,
            middle.1,
        ),
        step_spec(middle.0, QueryEvent::Received(second), host, end.0, end.1),
    ensures
        middle.0 == QueryState::AwaitingChallengedResponse,
        middle.1 matches QueryAction::Send(bytes) && bytes@ == RequestPacket::spec_new(
            Some(first@.subrange(5, 9)),
        ).wire(),
        end.0 == QueryState::Done,
        end.1 matches QueryAction::Finish(Err(SourceQueryError::FussyHost(name))) && name@
            == host,
{
}

/// Once the deadline has passed the query is over, wherever it stood, and
/// its result is the timeout.
pub proof fn lemma_timeout_ends_query(
    state: QueryState,
    host: Seq<char>,
    next: QueryState,
    action: QueryAction,
)
    requires
        step_spec(state, QueryEvent::Failed(TransportFailure::Timeout), host, next, action),
    ensures
        next == QueryState::Done,
        action matches QueryAction::Finish(Err(e)) && e == SourceQueryError::TimeoutError,
{
}

} // verus!
