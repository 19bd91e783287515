//! The network actor: the one place where the node's bookkeeping changes.
//!
//! The actor is a state machine. Its driver owns the swarm and the queues,
//! feeds the actor one [`Input`] at a time and carries out the [`Action`]s it
//! answers with. What the actor does on each input is written down once, as
//! the function [`step`] on [`Model`]s, and the executable [`EventLoop`] is
//! proved to follow it.

use crate::command::{
    ChannelId, Command, CommandView, QueryError, QueryId, Reply, ReplyId, ReplyView, RequestId,
};
use crate::event::{
    action_views, Action, ActionView, Event, EventView, Input, InputView, Notice, Outcome,
    OutcomeView, QueryKind, QueryResult, QueryResultView, Sighting, SwarmEvent, SwarmEventView,
};
use crate::peer::{PeerId, PeerSet};
use crate::protocol::{FileRequest, FileResponse};
use std::collections::{HashMap, HashSet};
use vstd::prelude::*;

verus! {

broadcast use vstd::std_specs::hash::group_hash_axioms;

/// An outstanding query: who waits for it and what it has found so far.
pub struct QueryModel {
    pub kind: QueryKind,
    pub key: Seq<char>,
    pub reply: ReplyId,
    pub found: Set<Seq<u8>>,
    pub record: Option<Seq<u8>>,
}

/// The actor's state.
pub struct Model {
    /// The identity of this node.
    pub local: Seq<u8>,
    /// The keys that this node advertises.
    pub provided: Set<Seq<char>>,
    /// The outstanding queries, by the names the discovery layer gave them.
    pub queries: Map<QueryId, QueryModel>,
    /// The reply channel behind each outstanding file request.
    pub requests: Map<RequestId, ReplyId>,
    /// The channels on which peers wait for a file.
    pub channels: Set<ChannelId>,
}

/// What one input leads to.
pub struct Step {
    pub next: Model,
    pub actions: Seq<ActionView>,
}

/// The state of an actor that has seen no input.
pub open spec fn fresh(local: Seq<u8>) -> Model {
    Model {
        local,
        provided: Set::empty(),
        queries: Map::empty(),
        requests: Map::empty(),
        channels: Set::empty(),
    }
}

/// A command becomes the operation that carries it out. Advertising a key
/// also notes it as provided; answering a peer closes its channel, and on a
/// channel that is not open nothing is sent.
pub open spec fn command_step(m: Model, c: CommandView) -> Step {
    match c {
        CommandView::StartListening { addr, sender } => Step {
            next: m,
            actions: seq![ActionView::Listen { addr, reply: sender }],
        },
        CommandView::Dial { peer_id, peer_addr, sender } => Step {
            next: m,
            actions: seq![ActionView::Dial { peer_id, peer_addr, reply: sender }],
        },
        CommandView::StartProviding { file_name, sender } => Step {
            next: Model { provided: m.provided.insert(file_name), ..m },
            actions: seq![ActionView::StartProviding { key: file_name, reply: sender }],
        },
        CommandView::GetProviders { file_name, sender } => Step {
            next: m,
            actions: seq![ActionView::GetProviders { key: file_name, reply: sender }],
        },
        CommandView::RequestFile { file_name, peer, sender } => Step {
            next: m,
            actions: seq![ActionView::SendRequest { peer, request: file_name, reply: sender }],
        },
        CommandView::RespondFile { file, channel } => {
            if m.channels.contains(channel) {
                Step {
                    next: Model { channels: m.channels.remove(channel), ..m },
                    actions: seq![ActionView::SendResponse { channel, response: file }],
                }
            } else {
                Step {
                    next: m,
                    actions: seq![
                        ActionView::Report { notice: Notice::ChannelNotOpen { channel } },
                    ],
                }
            }
        },
    }
}

/// The entry under which a query is tracked when it starts.
pub open spec fn new_query(kind: QueryKind, key: Seq<char>, reply: ReplyId) -> QueryModel {
    QueryModel { kind, key, reply, found: Set::empty(), record: None }
}

/// The outcome of a transport operation goes to its caller at once. A query
/// or request that was taken is tracked under its name; a caller that was
/// tracked under that name before is given up.
pub open spec fn outcome_step(m: Model, o: OutcomeView) -> Step {
    match o {
        OutcomeView::Listening { reply, result } => Step {
            next: m,
            actions: seq![ActionView::Signal { reply, value: ReplyView::Listening(result) }],
        },
        OutcomeView::Dialed { reply, result } => Step {
            next: m,
            actions: seq![ActionView::Signal { reply, value: ReplyView::Dialed(result) }],
        },
        OutcomeView::QueryStarted { query, kind, key, reply } => Step {
            next: Model { queries: m.queries.insert(query, new_query(kind, key, reply)), ..m },
            actions: if m.queries.contains_key(query) {
                seq![ActionView::Abandon { reply: m.queries[query].reply }]
            } else {
                seq![]
            },
        },
        OutcomeView::RequestSent { request, reply } => Step {
            next: Model { requests: m.requests.insert(request, reply), ..m },
            actions: if m.requests.contains_key(request) {
                seq![ActionView::Abandon { reply: m.requests[request] }]
            } else {
                seq![]
            },
        },
    }
}

/// What a query has found once a step's report is taken in. Providers add
/// up; of the values found under a key the first is kept.
pub open spec fn absorb(q: QueryModel, result: QueryResultView) -> QueryModel {
    match result {
        QueryResultView::Providers(peers) => {
            if q.kind == QueryKind::GetProviders {
                QueryModel { found: q.found.union(peers), ..q }
            } else {
                q
            }
        },
        QueryResultView::Record(value) => {
            if q.kind == QueryKind::GetRecord && q.record is None {
                QueryModel { record: Some(value), ..q }
            } else {
                q
            }
        },
        _ => q,
    }
}

/// The failure that a step reports, if it reports one.
pub open spec fn failure_of(result: QueryResultView) -> Option<QueryError> {
    match result {
        QueryResultView::Failed(e) => Some(e),
        _ => None,
    }
}

/// True when no step of the query follows this one.
pub open spec fn is_terminal(result: QueryResultView, last: bool) -> bool {
    last || result is Failed
}

/// What the caller behind a finished query is told. A lookup of providers
/// tells what was found, and this node too where it advertises the key.
pub open spec fn answer(m: Model, q: QueryModel, failure: Option<QueryError>) -> ReplyView {
    match q.kind {
        QueryKind::StartProviding => ReplyView::Providing,
        QueryKind::GetProviders => ReplyView::Providers(
            if m.provided.contains(q.key) {
                q.found.insert(m.local)
            } else {
                q.found
            },
        ),
        QueryKind::PutRecord => ReplyView::Stored(
            match failure {
                Some(e) => Err(e),
                None => Ok(()),
            },
        ),
        QueryKind::GetRecord => ReplyView::Record(
            match q.record {
                Some(value) => Ok(value),
                None => Err(
                    match failure {
                        Some(e) => e,
                        None => QueryError::NotFound,
                    },
                ),
            },
        ),
    }
}

/// The actions that end a query: its caller is told, and a failure goes to
/// the log.
pub open spec fn conclusion(
    m: Model,
    id: QueryId,
    q: QueryModel,
    failure: Option<QueryError>,
) -> Seq<ActionView> {
    let signal = seq![ActionView::Signal { reply: q.reply, value: answer(m, q, failure) }];
    match failure {
        Some(error) => signal.push(
            ActionView::Report { notice: Notice::QueryFailed { id, error } },
        ),
        None => signal,
    }
}

/// The address of each peer that was seen goes to the routing table.
pub open spec fn sightings(peers: Seq<(Seq<u8>, Seq<char>)>) -> Seq<ActionView> {
    peers.map_values(|p: (Seq<u8>, Seq<char>)| ActionView::AddAddress { peer: p.0, addr: p.1 })
}

/// A report of the swarm either ends an outstanding entry, whose caller is
/// then told, or adds to one, or is passed on. A report under a name that is
/// not outstanding changes nothing and reaches no caller.
pub open spec fn event_step(m: Model, e: SwarmEventView) -> Step {
    match e {
        SwarmEventView::NewListenAddr { address } => Step {
            next: m,
            actions: seq![ActionView::Announce { address }],
        },
        SwarmEventView::Discovered { peers } => Step { next: m, actions: sightings(peers) },
        SwarmEventView::QueryProgressed { id, result, last } => {
            if !m.queries.contains_key(id) {
                Step {
                    next: m,
                    actions: seq![ActionView::Report { notice: Notice::StaleQuery { id } }],
                }
            } else {
                let q = absorb(m.queries[id], result);
                if is_terminal(result, last) {
                    Step {
                        next: Model { queries: m.queries.remove(id), ..m },
                        actions: conclusion(m, id, q, failure_of(result)),
                    }
                } else {
                    Step { next: Model { queries: m.queries.insert(id, q), ..m }, actions: seq![] }
                }
            }
        },
        SwarmEventView::InboundRequest { request, channel } => Step {
            next: Model { channels: m.channels.insert(channel), ..m },
            actions: seq![
                ActionView::Emit { event: EventView::InboundRequest { request, channel } },
            ],
        },
        SwarmEventView::InboundClosed { channel } => Step {
            next: Model { channels: m.channels.remove(channel), ..m },
            actions: seq![],
        },
        SwarmEventView::Response { request_id, response } => {
            if m.requests.contains_key(request_id) {
                Step {
                    next: Model { requests: m.requests.remove(request_id), ..m },
                    actions: seq![
                        ActionView::Signal {
                            reply: m.requests[request_id],
                            value: ReplyView::File(Ok(response)),
                        },
                    ],
                }
            } else {
                Step {
                    next: m,
                    actions: seq![
                        ActionView::Report { notice: Notice::StaleRequest { request_id } },
                    ],
                }
            }
        },
        SwarmEventView::OutboundFailure { request_id, error } => {
            if m.requests.contains_key(request_id) {
                Step {
                    next: Model { requests: m.requests.remove(request_id), ..m },
                    actions: seq![
                        ActionView::Signal {
                            reply: m.requests[request_id],
                            value: ReplyView::File(Err(error)),
                        },
                    ],
                }
            } else {
                Step {
                    next: m,
                    actions: seq![
                        ActionView::Report { notice: Notice::StaleRequest { request_id } },
                    ],
                }
            }
        },
    }
}

/// What the actor does on one input.
pub open spec fn step(m: Model, input: InputView) -> Step {
    match input {
        InputView::Command(c) => command_step(m, c),
        InputView::Outcome(o) => outcome_step(m, o),
        InputView::Swarm(e) => event_step(m, e),
    }
}

/// What the actor does on a run of inputs, taken one at a time and in order.
pub open spec fn run(m: Model, inputs: Seq<InputView>) -> Step
    decreases inputs.len(),
{
    if inputs.len() == 0 {
        Step { next: m, actions: seq![] }
    } else {
        let before = run(m, inputs.drop_last());
        let last = step(before.next, inputs.last());
        Step { next: last.next, actions: before.actions + last.actions }
    }
}

struct PendingQuery {
    kind: QueryKind,
    key: String,
    reply: ReplyId,
    found: PeerSet,
    record: Option<Vec<u8>>,
}

impl View for PendingQuery {
    type V = QueryModel;

    closed spec fn view(&self) -> QueryModel {
        QueryModel {
            kind: self.kind,
            key: self.key@,
            reply: self.reply,
            found: self.found@,
            record: match self.record {
                Some(value) => Some(value@),
                None => None,
            },
        }
    }
}

/// The network actor.
pub struct EventLoop {
    local_peer: PeerId,
    provided: Vec<String>,
    pending_queries: HashMap<QueryId, PendingQuery>,
    pending_requests: HashMap<RequestId, ReplyId>,
    open_channels: HashSet<ChannelId>,
}

impl View for EventLoop {
    type V = Model;

    closed spec fn view(&self) -> Model {
        Model {
            local: self.local_peer@,
            provided: self.provided@.map_values(|key: String| key@).to_set(),
            queries: self.pending_queries@.map_values(|q: PendingQuery| q@),
            requests: self.pending_requests@,
            channels: self.open_channels@,
        }
    }
}

impl EventLoop {
    /// An actor for the node with the given identity. Nothing is outstanding
    /// and nothing is advertised.
    pub fn new(local_peer: PeerId) -> (node: EventLoop)
        ensures
            node@ == fresh(local_peer@),
    {
        let node = EventLoop {
            local_peer,
            provided: Vec::new(),
            pending_queries: HashMap::new(),
            pending_requests: HashMap::new(),
            open_channels: HashSet::new(),
        };
        proof {
            assert(node@.provided =~= Set::<Seq<char>>::empty());
            assert(node@.queries =~= Map::<QueryId, QueryModel>::empty());
        }
        node
    }

    /// The actor holds finitely many outstanding entries.
    pub proof fn lemma_holds_finitely_many(&self)
        ensures
            self@.queries.dom().finite(),
            self@.requests.dom().finite(),
    {
        vstd::std_specs::hash::axiom_hashmap_view_finite_dom(self.pending_queries);
        vstd::std_specs::hash::axiom_hashmap_view_finite_dom(self.pending_requests);
        assert(self@.queries.dom() =~= self.pending_queries@.dom());
    }

    /// Tells whether this node advertises `key`.
    pub fn is_provided(&self, key: &String) -> (r: bool)
        ensures
            r == self@.provided.contains(key@),
    {
        let ghost keys = self.provided@.map_values(|key: String| key@);
        let mut i: usize = 0;
        while i < self.provided.len()
            invariant
                i <= self.provided.len(),
                keys == self.provided@.map_values(|key: String| key@),
                forall|k: int| 0 <= k < i ==> keys[k] != key@,
            decreases self.provided.len() - i,
        {
            if self.provided[i] == *key {
                proof {
                    assert(keys[i as int] == key@);
                }
                return true;
            }
            i = i + 1;
        }
        false
    }

    /// The number of queries and file requests that are outstanding.
    pub fn outstanding(&self) -> (n: (usize, usize))
        ensures
            n.0 == self@.queries.len(),
            n.1 == self@.requests.len(),
    {
        proof {
            let raw = self.pending_queries@;
            assert(self@.queries.dom() =~= raw.dom());
        }
        (self.pending_queries.len(), self.pending_requests.len())
    }

    /// Takes a command from the queue.
    pub fn handle_command(&mut self, command: Command) -> (actions: Vec<Action>)
        ensures
            final(self)@ == command_step(old(self)@, command@).next,
            action_views(actions@) == command_step(old(self)@, command@).actions,
    {
        let ghost want = command_step(self@, command@);
        let actions = match command {
            Command::StartListening { addr, sender } => {
                vec![Action::Listen { addr, reply: sender }]
            },
            Command::Dial { peer_id, peer_addr, sender } => {
                vec![Action::Dial { peer_id, peer_addr, reply: sender }]
            },
            Command::StartProviding { file_name, sender } => {
                let key = file_name.clone();
                proof {
                    let keys = self.provided@.map_values(|key: String| key@);
                    assert(self.provided@.push(key).map_values(|key: String| key@) =~= keys.push(
                        key@,
                    ));
                    keys.lemma_push_to_set_commute(key@);
                }
                self.provided.push(key);
                vec![Action::StartProviding { key: file_name, reply: sender }]
            },
            Command::GetProviders { file_name, sender } => {
                vec![Action::GetProviders { key: file_name, reply: sender }]
            },
            Command::RequestFile { file_name, peer, sender } => {
                vec![Action::SendRequest { peer, request: FileRequest(file_name), reply: sender }]
            },
            Command::RespondFile { file, channel } => {
                if self.open_channels.remove(&channel) {
                    vec![Action::SendResponse { channel, response: FileResponse(file) }]
                } else {
                    proof {
                        assert(self.open_channels@ =~= old(self).open_channels@);
                    }
                    vec![Action::Report { notice: Notice::ChannelNotOpen { channel } }]
                }
            },
        };
        proof {
            assert(action_views(actions@) =~= want.actions);
            assert(self@.provided =~= want.next.provided);
            assert(self@.channels =~= want.next.channels);
        }
        actions
    }

    /// Takes the outcome of an operation that the actor asked for.
    pub fn handle_outcome(&mut self, outcome: Outcome) -> (actions: Vec<Action>)
        ensures
            final(self)@ == outcome_step(old(self)@, outcome@).next,
            action_views(actions@) == outcome_step(old(self)@, outcome@).actions,
    {
        let ghost want = outcome_step(self@, outcome@);
        let actions = match outcome {
            Outcome::Listening { reply, result } => {
                vec![Action::Signal { reply, value: Reply::Listening(result) }]
            },
            Outcome::Dialed { reply, result } => {
                vec![Action::Signal { reply, value: Reply::Dialed(result) }]
            },
            Outcome::QueryStarted { query, kind, key, reply } => {
                let entry = PendingQuery { kind, key, reply, found: PeerSet::new(), record: None };
                let ghost before = self.pending_queries@;
                let displaced = self.pending_queries.insert(query, entry);
                proof {
                    assert(self.pending_queries@.map_values(|q: PendingQuery| q@)
                        =~= before.map_values(|q: PendingQuery| q@).insert(query, entry@));
                }
                match displaced {
                    Some(old_entry) => vec![Action::Abandon { reply: old_entry.reply }],
                    None => Vec::new(),
                }
            },
            Outcome::RequestSent { request, reply } => {
                match self.pending_requests.insert(request, reply) {
                    Some(old_reply) => vec![Action::Abandon { reply: old_reply }],
                    None => Vec::new(),
                }
            },
        };
        proof {
            assert(action_views(actions@) =~= want.actions);
            assert(self@.queries =~= want.next.queries);
            assert(self@.requests =~= want.next.requests);
        }
        actions
    }

    /// The actions that end the query `q`.
    fn conclude(&self, id: QueryId, q: PendingQuery, failure: Option<QueryError>) -> (actions: Vec<
        Action,
    >)
        ensures
            action_views(actions@) == conclusion(self@, id, q@, failure),
    {
        let value = match q.kind {
            QueryKind::StartProviding => Reply::Providing,
            QueryKind::GetProviders => {
                let mut found = q.found;
                if self.is_provided(&q.key) {
                    found.insert(self.local_peer.duplicate());
                }
                Reply::Providers(found)
            },
            QueryKind::PutRecord => Reply::Stored(
                match failure {
                    Some(e) => Err(e),
                    None => Ok(()),
                },
            ),
            QueryKind::GetRecord => Reply::Record(
                match q.record {
                    Some(value) => Ok(value),
                    None => Err(
                        match failure {
                            Some(e) => e,
                            None => QueryError::NotFound,
                        },
                    ),
                },
            ),
        };
        let mut actions = vec![Action::Signal { reply: q.reply, value }];
        proof {
            assert(action_views(actions@) =~= seq![
                ActionView::Signal { reply: q@.reply, value: answer(self@, q@, failure) },
            ]);
        }
        match failure {
            Some(error) => {
                let report = Action::Report { notice: Notice::QueryFailed { id, error } };
                proof {
                    assert(action_views(actions@.push(report)) =~= action_views(actions@).push(
                        report@,
                    ));
                }
                actions.push(report);
            },
            None => {},
        }
        actions
    }

    /// Takes a report of the swarm.
    pub fn handle_event(&mut self, event: SwarmEvent) -> (actions: Vec<Action>)
        ensures
            final(self)@ == event_step(old(self)@, event@).next,
            action_views(actions@) == event_step(old(self)@, event@).actions,
    {
        let ghost want = event_step(self@, event@);
        let actions = match event {
            SwarmEvent::NewListenAddr { address } => vec![Action::Announce { address }],
            SwarmEvent::Discovered { peers } => {
                let mut actions: Vec<Action> = Vec::new();
                let mut i: usize = 0;
                while i < peers.len()
                    invariant
                        i <= peers.len(),
                        action_views(actions@) == sightings(
                            peers@.map_values(|s: Sighting| s@).subrange(0, i as int),
                        ),
                    decreases peers.len() - i,
                {
                    let add = Action::AddAddress {
                        peer: peers[i].peer.duplicate(),
                        addr: peers[i].addr.clone(),
                    };
                    proof {
                        let seen = peers@.map_values(|s: Sighting| s@);
                        assert(seen.subrange(0, i + 1) =~= seen.subrange(0, i as int).push(
                            seen[i as int],
                        ));
                        assert(seen[i as int] == peers@[i as int]@);
                        assert(add@ == (ActionView::AddAddress {
                            peer: seen[i as int].0,
                            addr: seen[i as int].1,
                        }));
                        assert(action_views(actions@.push(add)) =~= action_views(actions@).push(
                            add@,
                        ));
                        assert(sightings(seen.subrange(0, i as int).push(seen[i as int]))
                            =~= sightings(seen.subrange(0, i as int)).push(add@));
                    }
                    actions.push(add);
                    i = i + 1;
                }
                proof {
                    let seen = peers@.map_values(|s: Sighting| s@);
                    assert(seen.subrange(0, i as int) =~= seen);
                }
                actions
            },
            SwarmEvent::QueryProgressed { id, result, last } => {
                let ghost before = self.pending_queries@;
                match self.pending_queries.remove(&id) {
                    None => {
                        proof {
                            assert(self.pending_queries@ =~= before);
                        }
                        vec![Action::Report { notice: Notice::StaleQuery { id } }]
                    },
                    Some(entry) => {
                        let ghost held = entry@;
                        let mut q = entry;
                        let mut failure: Option<QueryError> = None;
                        match result {
                            QueryResult::Providers(peers) => {
                                match q.kind {
                                    QueryKind::GetProviders => {
                                        q.found.extend(peers);
                                    },
                                    _ => {},
                                }
                            },
                            QueryResult::Record(value) => {
                                match q.kind {
                                    QueryKind::GetRecord => {
                                        if q.record.is_none() {
                                            q.record = Some(value);
                                        }
                                    },
                                    _ => {},
                                }
                            },
                            QueryResult::Finished => {},
                            QueryResult::Failed(e) => {
                                failure = Some(e);
                            },
                        }
                        proof {
                            assert(q@ == absorb(held, result@));
                            assert(failure == failure_of(result@));
                            assert(self.pending_queries@.map_values(|q: PendingQuery| q@)
                                =~= before.map_values(|q: PendingQuery| q@).remove(id));
                        }
                        if last || failure.is_some() {
                            proof {
                                assert(self@.provided == old(self)@.provided);
                                assert(self@.local == old(self)@.local);
                            }
                            let ghost now = self@;
                            let actions = self.conclude(id, q, failure);
                            proof {
                                assert(conclusion(now, id, q@, failure) == conclusion(
                                    old(self)@,
                                    id,
                                    q@,
                                    failure,
                                ));
                            }
                            actions
                        } else {
                            let ghost kept = q@;
                            self.pending_queries.insert(id, q);
                            proof {
                                assert(self.pending_queries@.map_values(|q: PendingQuery| q@)
                                    =~= before.map_values(|q: PendingQuery| q@).insert(id, kept));
                            }
                            Vec::new()
                        }
                    },
                }
            },
            SwarmEvent::InboundRequest { request, channel } => {
                self.open_channels.insert(channel);
                vec![Action::Emit { event: Event::InboundRequest { request, channel } }]
            },
            SwarmEvent::InboundClosed { channel } => {
                self.open_channels.remove(&channel);
                Vec::new()
            },
            SwarmEvent::Response { request_id, response } => {
                match self.pending_requests.remove(&request_id) {
                    Some(reply) => vec![
                        Action::Signal { reply, value: Reply::File(Ok(response)) },
                    ],
                    None => vec![Action::Report { notice: Notice::StaleRequest { request_id } }],
                }
            },
            SwarmEvent::OutboundFailure { request_id, error } => {
                match self.pending_requests.remove(&request_id) {
                    Some(reply) => vec![Action::Signal { reply, value: Reply::File(Err(error)) }],
                    None => vec![Action::Report { notice: Notice::StaleRequest { request_id } }],
                }
            },
        };
        proof {
            assert(action_views(actions@) =~= want.actions);
            assert(self@.queries =~= want.next.queries);
            assert(self@.requests =~= want.next.requests);
            assert(self@.channels =~= want.next.channels);
        }
        actions
    }

    /// Takes one input, whatever its source.
    pub fn step(&mut self, input: Input) -> (actions: Vec<Action>)
        ensures
            final(self)@ == step(old(self)@, input@).next,
            action_views(actions@) == step(old(self)@, input@).actions,
    {
        match input {
            Input::Command(command) => self.handle_command(command),
            Input::Outcome(outcome) => self.handle_outcome(outcome),
            Input::Swarm(event) => self.handle_event(event),
        }
    }
}

} // verus!
