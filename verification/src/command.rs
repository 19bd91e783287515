//! What callers ask of the node, and what they are told in return.
//!
//! A caller that wants an answer opens a one-shot reply channel and hands
//! its number over with the command. The node answers on each such channel
//! once.

use crate::frame::FrameError;
use crate::peer::{PeerId, PeerSet};
use vstd::prelude::*;

verus! {

/// Names the one-shot channel on which a caller waits.
pub type ReplyId = u64;

/// Names a query that the discovery layer runs.
pub type QueryId = u64;

/// Names a file request that went out to a peer.
pub type RequestId = u64;

/// Names the open handle on which a peer waits for a file.
pub type ChannelId = u64;

/// An operation that the node accepts.
#[derive(Debug)]
pub enum Command {
    /// Bind a listener to the address.
    StartListening { addr: String, sender: ReplyId },
    /// Connect to the peer at the address.
    Dial { peer_id: PeerId, peer_addr: String, sender: ReplyId },
    /// Advertise this node as a provider of the file.
    StartProviding { file_name: String, sender: ReplyId },
    /// Find the peers that provide the file.
    GetProviders { file_name: String, sender: ReplyId },
    /// Ask the peer for the file.
    RequestFile { file_name: String, peer: PeerId, sender: ReplyId },
    /// Answer a peer's request with the file's content.
    RespondFile { file: String, channel: ChannelId },
}

/// A command as a mathematical value.
pub enum CommandView {
    StartListening { addr: Seq<char>, sender: ReplyId },
    Dial { peer_id: Seq<u8>, peer_addr: Seq<char>, sender: ReplyId },
    StartProviding { file_name: Seq<char>, sender: ReplyId },
    GetProviders { file_name: Seq<char>, sender: ReplyId },
    RequestFile { file_name: Seq<char>, peer: Seq<u8>, sender: ReplyId },
    RespondFile { file: Seq<char>, channel: ChannelId },
}

impl View for Command {
    type V = CommandView;

    open spec fn view(&self) -> CommandView {
        match *self {
            Command::StartListening { addr, sender } => CommandView::StartListening {
                addr: addr@,
                sender,
            },
            Command::Dial { peer_id, peer_addr, sender } => CommandView::Dial {
                peer_id: peer_id@,
                peer_addr: peer_addr@,
                sender,
            },
            Command::StartProviding { file_name, sender } => CommandView::StartProviding {
                file_name: file_name@,
                sender,
            },
            Command::GetProviders { file_name, sender } => CommandView::GetProviders {
                file_name: file_name@,
                sender,
            },
            Command::RequestFile { file_name, peer, sender } => CommandView::RequestFile {
                file_name: file_name@,
                peer: peer@,
                sender,
            },
            Command::RespondFile { file, channel } => CommandView::RespondFile {
                file: file@,
                channel,
            },
        }
    }
}

/// Why a query of the discovery layer failed.
#[derive(Debug, Clone, Copy, PartialEq, Eq, Structural)]
pub enum QueryError {
    /// Nothing was found under the key.
    NotFound,
    /// Too few peers answered.
    QuorumFailed,
    /// The query ran out of time.
    Timeout,
}

/// Why a file did not arrive.
#[derive(Debug, Clone, Copy, PartialEq, Eq, Structural)]
pub enum TransferError {
    /// The peer could not be reached.
    DialFailure,
    /// The peer did not answer in time.
    Timeout,
    /// The connection closed before the answer came.
    ConnectionClosed,
    /// The peer does not speak the protocol.
    UnsupportedProtocols,
    /// The answer was not a well-formed frame.
    Protocol(FrameError),
}

/// What a caller is told on its reply channel.
#[derive(Debug)]
pub enum Reply {
    /// The outcome of binding a listener; an error carries the reason.
    Listening(Result<(), String>),
    /// The outcome of a dial attempt; an error carries the reason.
    Dialed(Result<(), String>),
    /// The advertisement of a file has run its course.
    Providing,
    /// The peers found to provide a file.
    Providers(PeerSet),
    /// The value found under a key.
    Record(Result<Vec<u8>, QueryError>),
    /// The outcome of storing a value.
    Stored(Result<(), QueryError>),
    /// The content of a file, or why it did not arrive.
    File(Result<String, TransferError>),
}

/// A reply as a mathematical value.
pub enum ReplyView {
    Listening(Result<(), Seq<char>>),
    Dialed(Result<(), Seq<char>>),
    Providing,
    Providers(Set<Seq<u8>>),
    Record(Result<Seq<u8>, QueryError>),
    Stored(Result<(), QueryError>),
    File(Result<Seq<char>, TransferError>),
}

/// The outcome of a transport operation as a mathematical value.
pub open spec fn outcome_view(r: Result<(), String>) -> Result<(), Seq<char>> {
    match r {
        Ok(()) => Ok(()),
        Err(reason) => Err(reason@),
    }
}

impl View for Reply {
    type V = ReplyView;

    open spec fn view(&self) -> ReplyView {
        match *self {
            Reply::Listening(r) => ReplyView::Listening(outcome_view(r)),
            Reply::Dialed(r) => ReplyView::Dialed(outcome_view(r)),
            Reply::Providing => ReplyView::Providing,
            Reply::Providers(peers) => ReplyView::Providers(peers@),
            Reply::Record(r) => ReplyView::Record(
                match r {
                    Ok(value) => Ok(value@),
                    Err(e) => Err(e),
                },
            ),
            Reply::Stored(r) => ReplyView::Stored(r),
            Reply::File(r) => ReplyView::File(
                match r {
                    Ok(content) => Ok(content@),
                    Err(e) => Err(e),
                },
            ),
        }
    }
}

} // verus!
