//! What the command-line program does with a node, one decision at a time.
//!
//! A [`Session`] is told what the last operation came to and answers with
//! the operation to do next. The program around it does the operations: it
//! calls the node's client, reads the file and prints.

use crate::command::ChannelId;
use crate::event::{Event, EventView};
use crate::peer::{peer_views, PeerId};
use vstd::prelude::*;

verus! {

/// What the program is asked to do.
#[derive(Debug)]
pub enum CliArgument {
    /// Advertise the file at `path` under `name` and serve it.
    Provide { path: String, name: String },
    /// Find the file advertised under `name` and print it.
    Get { name: String },
}

/// The program's options.
#[derive(Debug)]
pub struct Opt {
    /// Seed of a fixed identity; without it the identity is drawn at random.
    pub secret_key_seed: Option<u8>,
    /// Address of a peer to dial at the start, ending in the peer's identity.
    pub peer: Option<String>,
    /// Address to listen on.
    pub listen_address: Option<String>,
    /// What to do.
    pub argument: CliArgument,
}

/// Why a session ended in failure.
#[derive(Debug)]
pub enum CliError {
    /// The listener could not be bound.
    Listen { reason: String },
    /// The address of the peer to dial does not end in the peer's identity.
    PeerIdMissing,
    /// The peer could not be dialed.
    Dial { reason: String },
    /// Nobody provides the file.
    NoProvider { name: String },
    /// Every provider failed to return the file.
    NoneReturned,
    /// The session was told something that it had not asked for.
    OutOfTurn,
}

/// A failure as a mathematical value.
pub enum CliErrorView {
    Listen { reason: Seq<char> },
    PeerIdMissing,
    Dial { reason: Seq<char> },
    NoProvider { name: Seq<char> },
    NoneReturned,
    OutOfTurn,
}

impl View for CliError {
    type V = CliErrorView;

    open spec fn view(&self) -> CliErrorView {
        match *self {
            CliError::Listen { reason } => CliErrorView::Listen { reason: reason@ },
            CliError::PeerIdMissing => CliErrorView::PeerIdMissing,
            CliError::Dial { reason } => CliErrorView::Dial { reason: reason@ },
            CliError::NoProvider { name } => CliErrorView::NoProvider { name: name@ },
            CliError::NoneReturned => CliErrorView::NoneReturned,
            CliError::OutOfTurn => CliErrorView::OutOfTurn,
        }
    }
}

/// What the session asks the program to do next.
#[derive(Debug)]
pub enum Ask {
    /// Listen on the address, then tell `Told::Listening`.
    StartListening { addr: String },
    /// Dial the peer, then tell `Told::Dialed`.
    Dial { peer_id: PeerId, peer_addr: String },
    /// Advertise the file, then tell `Told::Providing`.
    StartProviding { file_name: String },
    /// Wait for the node's next event, then tell `Told::Event`.
    NextEvent,
    /// Read the file at `path` and answer with it on the channel, then tell
    /// `Told::Responded`.
    RespondFile { path: String, channel: ChannelId },
    /// Look up the file's providers, then tell `Told::Providers`.
    GetProviders { file_name: String },
    /// Ask every provider for the file at once and take the first that
    /// returns it, then tell `Told::File`.
    RequestFile { providers: Vec<PeerId>, file_name: String },
    /// Print the file's content and end.
    Print { file_name: String, content: String },
    /// End with the failure.
    Fail { error: CliError },
}

/// A request of the session as a mathematical value.
pub enum AskView {
    StartListening { addr: Seq<char> },
    Dial { peer_id: Seq<u8>, peer_addr: Seq<char> },
    StartProviding { file_name: Seq<char> },
    NextEvent,
    RespondFile { path: Seq<char>, channel: ChannelId },
    GetProviders { file_name: Seq<char> },
    RequestFile { providers: Seq<Seq<u8>>, file_name: Seq<char> },
    Print { file_name: Seq<char>, content: Seq<char> },
    Fail { error: CliErrorView },
}

impl View for Ask {
    type V = AskView;

    open spec fn view(&self) -> AskView {
        match *self {
            Ask::StartListening { addr } => AskView::StartListening { addr: addr@ },
            Ask::Dial { peer_id, peer_addr } => AskView::Dial {
                peer_id: peer_id@,
                peer_addr: peer_addr@,
            },
            Ask::StartProviding { file_name } => AskView::StartProviding {
                file_name: file_name@,
            },
            Ask::NextEvent => AskView::NextEvent,
            Ask::RespondFile { path, channel } => AskView::RespondFile { path: path@, channel },
            Ask::GetProviders { file_name } => AskView::GetProviders { file_name: file_name@ },
            Ask::RequestFile { providers, file_name } => AskView::RequestFile {
                providers: peer_views(providers@),
                file_name: file_name@,
            },
            Ask::Print { file_name, content } => AskView::Print {
                file_name: file_name@,
                content: content@,
            },
            Ask::Fail { error } => AskView::Fail { error: error@ },
        }
    }
}

/// What the program tells the session.
#[derive(Debug)]
pub enum Told {
    /// The program has started.
    Begin,
    /// How listening went; an error carries the reason.
    Listening(Result<(), String>),
    /// How the dial went; an error carries the reason.
    Dialed(Result<(), String>),
    /// The file is advertised.
    Providing,
    /// The node's next event.
    Event(Event),
    /// The file was sent.
    Responded,
    /// The providers that the lookup found.
    Providers(Vec<PeerId>),
    /// The content from the first provider that returned it, or nothing
    /// where all of them failed.
    File(Option<String>),
}

/// A report of the program as a mathematical value.
pub enum ToldView {
    Begin,
    Listening(Result<(), Seq<char>>),
    Dialed(Result<(), Seq<char>>),
    Providing,
    Event(EventView),
    Responded,
    Providers(Seq<Seq<u8>>),
    File(Option<Seq<char>>),
}

impl View for Told {
    type V = ToldView;

    open spec fn view(&self) -> ToldView {
        match *self {
            Told::Begin => ToldView::Begin,
            Told::Listening(r) => ToldView::Listening(crate::command::outcome_view(r)),
            Told::Dialed(r) => ToldView::Dialed(crate::command::outcome_view(r)),
            Told::Providing => ToldView::Providing,
            Told::Event(e) => ToldView::Event(e@),
            Told::Responded => ToldView::Responded,
            Told::Providers(peers) => ToldView::Providers(peer_views(peers@)),
            Told::File(content) => ToldView::File(
                match content {
                    Some(text) => Some(text@),
                    None => None,
                },
            ),
        }
    }
}

/// How far a session has come.
#[derive(Debug, Clone, Copy, PartialEq, Eq, Structural)]
pub enum Stage {
    Start,
    Listening,
    Dialing,
    Advertising,
    Serving,
    Looking,
    Fetching,
    Finished,
}

/// What the program was asked to do, as a mathematical value.
pub enum ArgumentView {
    Provide { path: Seq<char>, name: Seq<char> },
    Get { name: Seq<char> },
}

impl View for CliArgument {
    type V = ArgumentView;

    open spec fn view(&self) -> ArgumentView {
        match *self {
            CliArgument::Provide { path, name } => ArgumentView::Provide {
                path: path@,
                name: name@,
            },
            CliArgument::Get { name } => ArgumentView::Get { name: name@ },
        }
    }
}

/// A session as a mathematical value.
pub struct SessionView {
    pub listen_address: Option<Seq<char>>,
    pub peer: Option<Seq<char>>,
    pub argument: ArgumentView,
    pub stage: Stage,
}

/// What one report leads to.
pub struct Turn {
    pub next: SessionView,
    pub ask: AskView,
}

/// The address on which a node listens where none is given: any interface,
/// and whichever port number the system picks.
pub open spec fn default_listen_address() -> Seq<char> {
    "/ip4/0.0.0.0/tcp/0"@
}

/// The session ends in failure.
pub open spec fn fail(s: SessionView, error: CliErrorView) -> Turn {
    Turn { next: SessionView { stage: Stage::Finished, ..s }, ask: AskView::Fail { error } }
}

/// The session turns to what it was asked to do: to advertise a file, or to
/// look one up.
pub open spec fn begin_work(s: SessionView) -> Turn {
    match s.argument {
        ArgumentView::Provide { path, name } => Turn {
            next: SessionView { stage: Stage::Advertising, ..s },
            ask: AskView::StartProviding { file_name: name },
        },
        ArgumentView::Get { name } => Turn {
            next: SessionView { stage: Stage::Looking, ..s },
            ask: AskView::GetProviders { file_name: name },
        },
    }
}

/// Once the node listens, the session dials the peer it was given, if any.
/// `target` is the identity in which that peer's address ends.
pub open spec fn after_listening(s: SessionView, target: Option<Seq<u8>>) -> Turn {
    match s.peer {
        Some(addr) => match target {
            Some(peer_id) => Turn {
                next: SessionView { stage: Stage::Dialing, ..s },
                ask: AskView::Dial { peer_id, peer_addr: addr },
            },
            None => fail(s, CliErrorView::PeerIdMissing),
        },
        None => begin_work(s),
    }
}

/// What the session does on a report, given the identity in which the
/// address of the peer to dial ends.
pub open spec fn turn_with(s: SessionView, told: ToldView, target: Option<Seq<u8>>) -> Turn {
    match (s.stage, told) {
        (Stage::Start, ToldView::Begin) => Turn {
            next: SessionView { stage: Stage::Listening, ..s },
            ask: AskView::StartListening {
                addr: match s.listen_address {
                    Some(addr) => addr,
                    None => default_listen_address(),
                },
            },
        },
        (Stage::Listening, ToldView::Listening(Ok(()))) => after_listening(s, target),
        (Stage::Listening, ToldView::Listening(Err(reason))) => fail(
            s,
            CliErrorView::Listen { reason },
        ),
        (Stage::Dialing, ToldView::Dialed(Ok(()))) => begin_work(s),
        (Stage::Dialing, ToldView::Dialed(Err(reason))) => fail(s, CliErrorView::Dial { reason }),
        (Stage::Advertising, ToldView::Providing) => Turn {
            next: SessionView { stage: Stage::Serving, ..s },
            ask: AskView::NextEvent,
        },
        (Stage::Serving, ToldView::Event(EventView::InboundRequest { request, channel })) => {
            match s.argument {
                ArgumentView::Provide { path, name } => {
                    if request == name {
                        Turn { next: s, ask: AskView::RespondFile { path, channel } }
                    } else {
                        Turn { next: s, ask: AskView::NextEvent }
                    }
                },
                ArgumentView::Get { .. } => fail(s, CliErrorView::OutOfTurn),
            }
        },
        (Stage::Serving, ToldView::Responded) => Turn { next: s, ask: AskView::NextEvent },
        (Stage::Looking, ToldView::Providers(providers)) => {
            match s.argument {
                ArgumentView::Get { name } => {
                    if providers.len() == 0 {
                        fail(s, CliErrorView::NoProvider { name })
                    } else {
                        Turn {
                            next: SessionView { stage: Stage::Fetching, ..s },
                            ask: AskView::RequestFile { providers, file_name: name },
                        }
                    }
                },
                ArgumentView::Provide { .. } => fail(s, CliErrorView::OutOfTurn),
            }
        },
        (Stage::Fetching, ToldView::File(Some(content))) => {
            match s.argument {
                ArgumentView::Get { name } => Turn {
                    next: SessionView { stage: Stage::Finished, ..s },
                    ask: AskView::Print { file_name: name, content },
                },
                ArgumentView::Provide { .. } => fail(s, CliErrorView::OutOfTurn),
            }
        },
        (Stage::Fetching, ToldView::File(None)) => fail(s, CliErrorView::NoneReturned),
        _ => fail(s, CliErrorView::OutOfTurn),
    }
}

/// A session that has finished stays finished: whatever it is told, it
/// answers with a failure.
pub proof fn lemma_finished_is_final(s: SessionView, told: ToldView, target: Option<Seq<u8>>)
    requires
        s.stage == Stage::Finished,
    ensures
        turn_with(s, told, target).next == s,
        turn_with(s, told, target).ask == (AskView::Fail { error: CliErrorView::OutOfTurn }),
{
}

/// A session answers a peer only with the file that it provides: it asks
/// for a response exactly when it serves and the peer's request names its
/// file.
pub proof fn lemma_serves_only_its_file(s: SessionView, told: ToldView, target: Option<Seq<u8>>)
    ensures
        turn_with(s, told, target).ask is RespondFile <==> {
            &&& s.stage == Stage::Serving
            &&& s.argument is Provide
            &&& told matches ToldView::Event(EventView::InboundRequest { request, .. })
            &&& request == s.argument->Provide_name
        },
{
}

/// True when the session is asked to fail for want of a provider.
pub open spec fn lacks_provider(ask: AskView) -> bool {
    ask matches AskView::Fail { error: CliErrorView::NoProvider { .. } }
}

/// A session prints only what a provider returned, and fails for want of a
/// provider exactly when the lookup found none.
pub proof fn lemma_get_outcomes(s: SessionView, told: ToldView, target: Option<Seq<u8>>)
    ensures
        turn_with(s, told, target).ask matches AskView::Print { content, .. } ==> {
            &&& s.stage == Stage::Fetching
            &&& told == ToldView::File(Some(content))
        },
        lacks_provider(turn_with(s, told, target).ask) <==> {
            &&& s.stage == Stage::Looking
            &&& s.argument is Get
            &&& told == ToldView::Providers(Seq::<Seq<u8>>::empty())
        },
{
    if told is Providers {
        let providers = told->Providers_0;
        if providers.len() == 0 {
            assert(providers =~= Seq::<Seq<u8>>::empty());
        }
    }
}

/// The identity in which a peer's address ends, as the address library
/// reads it: the bytes of the identity where the text is an address whose
/// last part names a peer, else nothing.
pub uninterp spec fn multiaddr_peer(addr: Seq<char>) -> Option<Seq<u8>>;

/// The identity of the peer that the session is to dial.
pub open spec fn dial_target(s: SessionView) -> Option<Seq<u8>> {
    match s.peer {
        Some(addr) => multiaddr_peer(addr),
        None => None,
    }
}

/// What the session does on a report.
pub open spec fn turn(s: SessionView, told: ToldView) -> Turn {
    turn_with(s, told, dial_target(s))
}

/// `Multiaddr::from_str`, `Multiaddr::pop` and `PeerId::to_bytes` of
/// libp2p: parses the text as an address, takes its last part and hands out
/// the bytes of the identity that this part names. Text that is no address,
/// and an address whose last part names no peer, give nothing. The contract
/// gives that outcome its name and claims nothing more of it.
#[verifier::external_body]
fn peer_of_multiaddr(addr: &str) -> (r: Option<Vec<u8>>)
    ensures
        match r {
            Some(bytes) => multiaddr_peer(addr@) == Some(bytes@),
            None => multiaddr_peer(addr@) is None,
        },
{
    let mut parsed: libp2p::Multiaddr = match addr.parse() {
        Ok(parsed) => parsed,
        Err(_) => return None,
    };
    match parsed.pop() {
        Some(libp2p::multiaddr::Protocol::P2p(peer)) => Some(peer.to_bytes()),
        _ => None,
    }
}

/// One run of the program.
#[derive(Debug)]
pub struct Session {
    listen_address: Option<String>,
    peer: Option<String>,
    argument: CliArgument,
    stage: Stage,
}

impl View for Session {
    type V = SessionView;

    closed spec fn view(&self) -> SessionView {
        SessionView {
            listen_address: match self.listen_address {
                Some(addr) => Some(addr@),
                None => None,
            },
            peer: match self.peer {
                Some(addr) => Some(addr@),
                None => None,
            },
            argument: self.argument@,
            stage: self.stage,
        }
    }
}

/// The options as a session sees them.
pub open spec fn session_of(opt: Opt) -> SessionView {
    SessionView {
        listen_address: match opt.listen_address {
            Some(addr) => Some(addr@),
            None => None,
        },
        peer: match opt.peer {
            Some(addr) => Some(addr@),
            None => None,
        },
        argument: opt.argument@,
        stage: Stage::Start,
    }
}

impl Session {
    /// A session at its start.
    pub fn new(opt: Opt) -> (session: Session)
        ensures
            session@ == session_of(opt),
    {
        Session {
            listen_address: opt.listen_address,
            peer: opt.peer,
            argument: opt.argument,
            stage: Stage::Start,
        }
    }

    /// How far the session has come.
    pub fn stage(&self) -> (stage: Stage)
        ensures
            stage == self@.stage,
    {
        self.stage
    }

    /// Ends the session in failure.
    fn fail(&mut self, error: CliError) -> (ask: Ask)
        ensures
            final(self)@ == fail(old(self)@, error@).next,
            ask@ == fail(old(self)@, error@).ask,
    {
        self.stage = Stage::Finished;
        Ask::Fail { error }
    }

    /// Turns to what the program was asked to do.
    fn begin_work(&mut self) -> (ask: Ask)
        ensures
            final(self)@ == begin_work(old(self)@).next,
            ask@ == begin_work(old(self)@).ask,
    {
        match &self.argument {
            CliArgument::Provide { path: _, name } => {
                let file_name = name.clone();
                self.stage = Stage::Advertising;
                Ask::StartProviding { file_name }
            },
            CliArgument::Get { name } => {
                let file_name = name.clone();
                self.stage = Stage::Looking;
                Ask::GetProviders { file_name }
            },
        }
    }

    /// Takes a report and answers with what to do next, given the identity
    /// in which the address of the peer to dial ends.
    pub fn advance_with(&mut self, told: Told, target: Option<Vec<u8>>) -> (ask: Ask)
        ensures
            final(self)@ == turn_with(
                old(self)@,
                told@,
                match target {
                    Some(bytes) => Some(bytes@),
                    None => None,
                },
            ).next,
            ask@ == turn_with(
                old(self)@,
                told@,
                match target {
                    Some(bytes) => Some(bytes@),
                    None => None,
                },
            ).ask,
    {
        match (self.stage, told) {
            (Stage::Start, Told::Begin) => {
                let addr = match &self.listen_address {
                    Some(addr) => addr.clone(),
                    None => "/ip4/0.0.0.0/tcp/0".to_owned(),
                };
                self.stage = Stage::Listening;
                Ask::StartListening { addr }
            },
            (Stage::Listening, Told::Listening(Ok(()))) => {
                match &self.peer {
                    Some(addr) => {
                        let peer_addr = addr.clone();
                        match target {
                            Some(bytes) => {
                                self.stage = Stage::Dialing;
                                Ask::Dial { peer_id: PeerId::new(bytes), peer_addr }
                            },
                            None => self.fail(CliError::PeerIdMissing),
                        }
                    },
                    None => self.begin_work(),
                }
            },
            (Stage::Listening, Told::Listening(Err(reason))) => self.fail(
                CliError::Listen { reason },
            ),
            (Stage::Dialing, Told::Dialed(Ok(()))) => self.begin_work(),
            (Stage::Dialing, Told::Dialed(Err(reason))) => self.fail(CliError::Dial { reason }),
            (Stage::Advertising, Told::Providing) => {
                self.stage = Stage::Serving;
                Ask::NextEvent
            },
            (Stage::Serving, Told::Event(Event::InboundRequest { request, channel })) => {
                match &self.argument {
                    CliArgument::Provide { path, name } => {
                        if request == *name {
                            Ask::RespondFile { path: path.clone(), channel }
                        } else {
                            Ask::NextEvent
                        }
                    },
                    CliArgument::Get { .. } => self.fail(CliError::OutOfTurn),
                }
            },
            (Stage::Serving, Told::Responded) => Ask::NextEvent,
            (Stage::Looking, Told::Providers(providers)) => {
                match &self.argument {
                    CliArgument::Get { name } => {
                        let name = name.clone();
                        if providers.len() == 0 {
                            self.fail(CliError::NoProvider { name })
                        } else {
                            self.stage = Stage::Fetching;
                            Ask::RequestFile { providers, file_name: name }
                        }
                    },
                    CliArgument::Provide { .. } => self.fail(CliError::OutOfTurn),
                }
            },
            (Stage::Fetching, Told::File(Some(content))) => {
                match &self.argument {
                    CliArgument::Get { name } => {
                        let file_name = name.clone();
                        self.stage = Stage::Finished;
                        Ask::Print { file_name, content }
                    },
                    CliArgument::Provide { .. } => self.fail(CliError::OutOfTurn),
                }
            },
            (Stage::Fetching, Told::File(None)) => self.fail(CliError::NoneReturned),
            _ => self.fail(CliError::OutOfTurn),
        }
    }

    /// Takes a report and answers with what to do next.
    pub fn advance(&mut self, told: Told) -> (ask: Ask)
        ensures
            final(self)@ == turn(old(self)@, told@).next,
            ask@ == turn(old(self)@, told@).ask,
    {
        let target = match &self.peer {
            Some(addr) => peer_of_multiaddr(addr.as_str()),
            None => None,
        };
        self.advance_with(told, target)
    }
}

/// The secret key of the identity with the given seed: the seed, then
/// thirty-one zero bytes.
pub fn secret_key_bytes(seed: u8) -> (bytes: [u8; 32])
    ensures
        bytes@[0] == seed,
        forall|i: int| 1 <= i < 32 ==> bytes@[i] == 0,
{
    let mut bytes = [0u8;32];
    bytes[0] = seed;
    bytes
}

} // verus!
