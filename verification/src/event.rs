//! What reaches the network actor, and what it asks to be done.
//!
//! The actor owns no socket. It is told what happened, as an [`Input`], and
//! answers with [`Action`]s for its driver to carry out on the swarm, on the
//! reply channels and on the queue of events for the application.

use crate::command::{
    outcome_view, ChannelId, Command, CommandView, QueryError, QueryId, Reply, ReplyId, ReplyView,
    RequestId, TransferError,
};
use crate::peer::PeerId;
use crate::protocol::{FileRequest, FileResponse};
use vstd::prelude::*;

verus! {

/// The kinds of query that the discovery layer runs.
#[derive(Debug, Clone, Copy, PartialEq, Eq, Structural)]
pub enum QueryKind {
    GetRecord,
    PutRecord,
    GetProviders,
    StartProviding,
}

/// What came of an operation that the actor asked for.
#[derive(Debug)]
pub enum Outcome {
    /// The attempt to bind a listener ended.
    Listening { reply: ReplyId, result: Result<(), String> },
    /// The attempt to dial ended.
    Dialed { reply: ReplyId, result: Result<(), String> },
    /// The discovery layer took a query and named it.
    QueryStarted { query: QueryId, kind: QueryKind, key: String, reply: ReplyId },
    /// A file request went out under the given name.
    RequestSent { request: RequestId, reply: ReplyId },
}

/// An outcome as a mathematical value.
pub enum OutcomeView {
    Listening { reply: ReplyId, result: Result<(), Seq<char>> },
    Dialed { reply: ReplyId, result: Result<(), Seq<char>> },
    QueryStarted { query: QueryId, kind: QueryKind, key: Seq<char>, reply: ReplyId },
    RequestSent { request: RequestId, reply: ReplyId },
}

impl View for Outcome {
    type V = OutcomeView;

    open spec fn view(&self) -> OutcomeView {
        match *self {
            Outcome::Listening { reply, result } => OutcomeView::Listening {
                reply,
                result: outcome_view(result),
            },
            Outcome::Dialed { reply, result } => OutcomeView::Dialed {
                reply,
                result: outcome_view(result),
            },
            Outcome::QueryStarted { query, kind, key, reply } => OutcomeView::QueryStarted {
                query,
                kind,
                key: key@,
                reply,
            },
            Outcome::RequestSent { request, reply } => OutcomeView::RequestSent { request, reply },
        }
    }
}

/// What a step of a query reports.
#[derive(Debug)]
pub enum QueryResult {
    /// Peers that provide the key.
    Providers(Vec<PeerId>),
    /// A value stored under the key.
    Record(Vec<u8>),
    /// Nothing more to report.
    Finished,
    /// The query failed.
    Failed(QueryError),
}

/// A step's report as a mathematical value.
pub enum QueryResultView {
    Providers(Set<Seq<u8>>),
    Record(Seq<u8>),
    Finished,
    Failed(QueryError),
}

impl View for QueryResult {
    type V = QueryResultView;

    open spec fn view(&self) -> QueryResultView {
        match *self {
            QueryResult::Providers(peers) => QueryResultView::Providers(
                crate::peer::peer_views(peers@).to_set(),
            ),
            QueryResult::Record(value) => QueryResultView::Record(value@),
            QueryResult::Finished => QueryResultView::Finished,
            QueryResult::Failed(e) => QueryResultView::Failed(e),
        }
    }
}

/// A peer and an address at which it was seen.
#[derive(Debug)]
pub struct Sighting {
    pub peer: PeerId,
    pub addr: String,
}

impl View for Sighting {
    type V = (Seq<u8>, Seq<char>);

    open spec fn view(&self) -> (Seq<u8>, Seq<char>) {
        (self.peer@, self.addr@)
    }
}

/// What the swarm reports.
#[derive(Debug)]
pub enum SwarmEvent {
    /// A listener is reachable at the address.
    NewListenAddr { address: String },
    /// Peers were seen on the local network.
    Discovered { peers: Vec<Sighting> },
    /// A query took a step. `last` marks the step after which none follows.
    QueryProgressed { id: QueryId, result: QueryResult, last: bool },
    /// A peer asks for a file and waits on the channel.
    InboundRequest { request: String, channel: ChannelId },
    /// The channel on which a peer waited is gone.
    InboundClosed { channel: ChannelId },
    /// A peer answered a file request.
    Response { request_id: RequestId, response: String },
    /// A file request failed.
    OutboundFailure { request_id: RequestId, error: TransferError },
}

/// A report of the swarm as a mathematical value.
pub enum SwarmEventView {
    NewListenAddr { address: Seq<char> },
    Discovered { peers: Seq<(Seq<u8>, Seq<char>)> },
    QueryProgressed { id: QueryId, result: QueryResultView, last: bool },
    InboundRequest { request: Seq<char>, channel: ChannelId },
    InboundClosed { channel: ChannelId },
    Response { request_id: RequestId, response: Seq<char> },
    OutboundFailure { request_id: RequestId, error: TransferError },
}

impl View for SwarmEvent {
    type V = SwarmEventView;

    open spec fn view(&self) -> SwarmEventView {
        match *self {
            SwarmEvent::NewListenAddr { address } => SwarmEventView::NewListenAddr {
                address: address@,
            },
            SwarmEvent::Discovered { peers } => SwarmEventView::Discovered {
                peers: peers@.map_values(|s: Sighting| s@),
            },
            SwarmEvent::QueryProgressed { id, result, last } => SwarmEventView::QueryProgressed {
                id,
                result: result@,
                last,
            },
            SwarmEvent::InboundRequest { request, channel } => SwarmEventView::InboundRequest {
                request: request@,
                channel,
            },
            SwarmEvent::InboundClosed { channel } => SwarmEventView::InboundClosed { channel },
            SwarmEvent::Response { request_id, response } => SwarmEventView::Response {
                request_id,
                response: response@,
            },
            SwarmEvent::OutboundFailure { request_id, error } => SwarmEventView::OutboundFailure {
                request_id,
                error,
            },
        }
    }
}

/// Anything that reaches the actor.
#[derive(Debug)]
pub enum Input {
    /// A command taken from the command queue.
    Command(Command),
    /// The outcome of an operation that the actor asked for.
    Outcome(Outcome),
    /// A report of the swarm.
    Swarm(SwarmEvent),
}

/// An input as a mathematical value.
pub enum InputView {
    Command(CommandView),
    Outcome(OutcomeView),
    Swarm(SwarmEventView),
}

impl View for Input {
    type V = InputView;

    open spec fn view(&self) -> InputView {
        match *self {
            Input::Command(c) => InputView::Command(c@),
            Input::Outcome(o) => InputView::Outcome(o@),
            Input::Swarm(e) => InputView::Swarm(e@),
        }
    }
}

/// What the actor hands to the application.
#[derive(Debug)]
pub enum Event {
    /// A peer asks for the file and waits on the channel.
    InboundRequest { request: String, channel: ChannelId },
}

/// An event for the application as a mathematical value.
pub enum EventView {
    InboundRequest { request: Seq<char>, channel: ChannelId },
}

impl View for Event {
    type V = EventView;

    open spec fn view(&self) -> EventView {
        match *self {
            Event::InboundRequest { request, channel } => EventView::InboundRequest {
                request: request@,
                channel,
            },
        }
    }
}

/// Something out of the ordinary that is written to the log and goes no
/// further.
#[derive(Debug, Clone, Copy, PartialEq, Eq, Structural)]
pub enum Notice {
    /// A query reported under a name that is not outstanding.
    StaleQuery { id: QueryId },
    /// A response or failure came under a name that is not outstanding.
    StaleRequest { request_id: RequestId },
    /// A file was offered on a channel that is not open.
    ChannelNotOpen { channel: ChannelId },
    /// A query ended in failure.
    QueryFailed { id: QueryId, error: QueryError },
}

/// What the actor asks its driver to do.
#[derive(Debug)]
pub enum Action {
    /// Bind a listener, then report `Outcome::Listening`.
    Listen { addr: String, reply: ReplyId },
    /// Note the peer's address and dial it, then report `Outcome::Dialed`.
    Dial { peer_id: PeerId, peer_addr: String, reply: ReplyId },
    /// Start advertising the key, then report `Outcome::QueryStarted`.
    StartProviding { key: String, reply: ReplyId },
    /// Start a lookup of the key's providers, then report
    /// `Outcome::QueryStarted`.
    GetProviders { key: String, reply: ReplyId },
    /// Send the request to the peer, then report `Outcome::RequestSent`.
    SendRequest { peer: PeerId, request: FileRequest, reply: ReplyId },
    /// Write the response on the channel and close it.
    SendResponse { channel: ChannelId, response: FileResponse },
    /// Add the peer's address to the routing table.
    AddAddress { peer: PeerId, addr: String },
    /// Tell the caller that waits on `reply`.
    Signal { reply: ReplyId, value: Reply },
    /// Drop the reply channel: its caller learns that no answer will come.
    Abandon { reply: ReplyId },
    /// Put the event on the queue for the application.
    Emit { event: Event },
    /// Show where the node listens.
    Announce { address: String },
    /// Write the notice to the log.
    Report { notice: Notice },
}

/// An action as a mathematical value.
pub enum ActionView {
    Listen { addr: Seq<char>, reply: ReplyId },
    Dial { peer_id: Seq<u8>, peer_addr: Seq<char>, reply: ReplyId },
    StartProviding { key: Seq<char>, reply: ReplyId },
    GetProviders { key: Seq<char>, reply: ReplyId },
    SendRequest { peer: Seq<u8>, request: Seq<char>, reply: ReplyId },
    SendResponse { channel: ChannelId, response: Seq<char> },
    AddAddress { peer: Seq<u8>, addr: Seq<char> },
    Signal { reply: ReplyId, value: ReplyView },
    Abandon { reply: ReplyId },
    Emit { event: EventView },
    Announce { address: Seq<char> },
    Report { notice: Notice },
}

impl View for Action {
    type V = ActionView;

    open spec fn view(&self) -> ActionView {
        match *self {
            Action::Listen { addr, reply } => ActionView::Listen { addr: addr@, reply },
            Action::Dial { peer_id, peer_addr, reply } => ActionView::Dial {
                peer_id: peer_id@,
                peer_addr: peer_addr@,
                reply,
            },
            Action::StartProviding { key, reply } => ActionView::StartProviding {
                key: key@,
                reply,
            },
            Action::GetProviders { key, reply } => ActionView::GetProviders { key: key@, reply },
            Action::SendRequest { peer, request, reply } => ActionView::SendRequest {
                peer: peer@,
                request: request@,
                reply,
            },
            Action::SendResponse { channel, response } => ActionView::SendResponse {
                channel,
                response: response@,
            },
            Action::AddAddress { peer, addr } => ActionView::AddAddress {
                peer: peer@,
                addr: addr@,
            },
            Action::Signal { reply, value } => ActionView::Signal { reply, value: value@ },
            Action::Abandon { reply } => ActionView::Abandon { reply },
            Action::Emit { event } => ActionView::Emit { event: event@ },
            Action::Announce { address } => ActionView::Announce { address: address@ },
            Action::Report { notice } => ActionView::Report { notice },
        }
    }
}

/// The actions in `s` as mathematical values, in the same order.
pub open spec fn action_views(s: Seq<Action>) -> Seq<ActionView> {
    s.map_values(|a: Action| a@)
}

} // verus!
