//! What holds of the network actor on every run.
//!
//! Each law is stated over [`step`] and [`run`], which the executable actor
//! is proved to follow.

use crate::command::{ChannelId, CommandView, QueryId, ReplyId, ReplyView, RequestId, TransferError};
use crate::event::{ActionView, InputView, Notice, OutcomeView, QueryKind, QueryResultView, SwarmEventView};
use crate::event_loop::{
    absorb, answer, command_step, conclusion, event_step, failure_of, is_terminal, outcome_step,
    run, step, Model, QueryModel, Step,
};
use vstd::prelude::*;

verus! {

/// True when the action answers the caller that waits on `reply`: with a
/// value, or by giving the caller up.
pub open spec fn answers(a: ActionView, reply: ReplyId) -> bool {
    match a {
        ActionView::Signal { reply: r, .. } => r == reply,
        ActionView::Abandon { reply: r } => r == reply,
        _ => false,
    }
}

/// How many of the actions answer the caller that waits on `reply`.
pub open spec fn told(actions: Seq<ActionView>, reply: ReplyId) -> nat
    decreases actions.len(),
{
    if actions.len() == 0 {
        0
    } else {
        told(actions.drop_last(), reply) + if answers(actions.last(), reply) {
            1nat
        } else {
            0nat
        }
    }
}

/// Answers add up over actions that follow one another.
pub proof fn lemma_told_concat(a: Seq<ActionView>, b: Seq<ActionView>, reply: ReplyId)
    ensures
        told(a + b, reply) == told(a, reply) + told(b, reply),
    decreases b.len(),
{
    if b.len() == 0 {
        assert(a + b =~= a);
    } else {
        assert((a + b).drop_last() =~= a + b.drop_last());
        assert((a + b).last() == b.last());
        lemma_told_concat(a, b.drop_last(), reply);
    }
}

/// One action answers the caller it names, and nobody else.
pub proof fn lemma_told_one(a: ActionView, reply: ReplyId)
    ensures
        told(seq![a], reply) == if answers(a, reply) {
            1nat
        } else {
            0nat
        },
{
    assert(seq![a].drop_last() =~= Seq::<ActionView>::empty());
    assert(seq![a].last() == a);
    assert(told(seq![a].drop_last(), reply) == 0);
}

/// What ends a query answers the caller behind it once, and nobody else.
pub proof fn lemma_told_conclusion(
    m: Model,
    id: QueryId,
    q: QueryModel,
    failure: Option<crate::command::QueryError>,
    reply: ReplyId,
)
    ensures
        told(conclusion(m, id, q, failure), reply) == if q.reply == reply {
            1nat
        } else {
            0nat
        },
{
    let signal = ActionView::Signal { reply: q.reply, value: answer(m, q, failure) };
    lemma_told_one(signal, reply);
    match failure {
        Some(error) => {
            let report = ActionView::Report { notice: Notice::QueryFailed { id, error } };
            assert(seq![signal].push(report) =~= seq![signal] + seq![report]);
            lemma_told_one(report, reply);
            lemma_told_concat(seq![signal], seq![report], reply);
        },
        None => {},
    }
}

/// The last report of an outstanding query answers the caller behind it,
/// exactly once, answers nobody else, and ends the entry.
pub proof fn lemma_terminal_tells_once(
    m: Model,
    id: QueryId,
    result: QueryResultView,
    last: bool,
    reply: ReplyId,
)
    requires
        m.queries.contains_key(id),
        is_terminal(result, last),
    ensures
        ({
            let s = event_step(m, SwarmEventView::QueryProgressed { id, result, last });
            &&& !s.next.queries.contains_key(id)
            &&& told(s.actions, reply) == if m.queries[id].reply == reply {
                1nat
            } else {
                0nat
            }
        }),
{
    lemma_told_conclusion(m, id, absorb(m.queries[id], result), failure_of(result), reply);
}

/// A report under a name that is not outstanding is discarded: the state
/// stays as it is and no caller is answered.
pub proof fn lemma_stale_report_tells_nobody(
    m: Model,
    id: QueryId,
    result: QueryResultView,
    last: bool,
    reply: ReplyId,
)
    requires
        !m.queries.contains_key(id),
    ensures
        ({
            let s = event_step(m, SwarmEventView::QueryProgressed { id, result, last });
            &&& s.next == m
            &&& s.actions == seq![ActionView::Report { notice: Notice::StaleQuery { id } }]
            &&& told(s.actions, reply) == 0
        }),
{
    lemma_told_one(ActionView::Report { notice: Notice::StaleQuery { id } }, reply);
}

/// At most once: after the last report of a query, a second last report
/// under the same name reaches no caller and changes nothing.
pub proof fn lemma_second_terminal_discarded(
    m: Model,
    id: QueryId,
    first: QueryResultView,
    first_last: bool,
    second: QueryResultView,
    second_last: bool,
    reply: ReplyId,
)
    requires
        m.queries.contains_key(id),
        is_terminal(first, first_last),
    ensures
        ({
            let s1 = event_step(
                m,
                SwarmEventView::QueryProgressed { id, result: first, last: first_last },
            );
            let s2 = event_step(
                s1.next,
                SwarmEventView::QueryProgressed { id, result: second, last: second_last },
            );
            &&& s2.next == s1.next
            &&& told(s2.actions, reply) == 0
        }),
{
    let s1 = event_step(m, SwarmEventView::QueryProgressed { id, result: first, last: first_last });
    lemma_stale_report_tells_nobody(s1.next, id, second, second_last, reply);
}

/// The answer to a file request reaches the caller behind it, exactly once,
/// and ends the entry; a second answer under the same name reaches nobody.
pub proof fn lemma_response_tells_once(
    m: Model,
    request_id: RequestId,
    response: Seq<char>,
    again: Seq<char>,
    reply: ReplyId,
)
    requires
        m.requests.contains_key(request_id),
    ensures
        ({
            let s1 = event_step(m, SwarmEventView::Response { request_id, response });
            let s2 = event_step(s1.next, SwarmEventView::Response { request_id, response: again });
            &&& s1.actions == seq![
                ActionView::Signal {
                    reply: m.requests[request_id],
                    value: ReplyView::File(Ok(response)),
                },
            ]
            &&& !s1.next.requests.contains_key(request_id)
            &&& told(s1.actions, reply) == if m.requests[request_id] == reply {
                1nat
            } else {
                0nat
            }
            &&& s2.next == s1.next
            &&& told(s2.actions, reply) == 0
        }),
{
    let s1 = event_step(m, SwarmEventView::Response { request_id, response });
    lemma_told_one(s1.actions[0], reply);
    assert(s1.actions =~= seq![s1.actions[0]]);
    lemma_told_one(ActionView::Report { notice: Notice::StaleRequest { request_id } }, reply);
}

/// A failed file request tells the caller behind it why, exactly once, and
/// ends the entry; a later answer under the same name reaches nobody.
pub proof fn lemma_failure_tells_once(
    m: Model,
    request_id: RequestId,
    error: TransferError,
    later: Seq<char>,
    reply: ReplyId,
)
    requires
        m.requests.contains_key(request_id),
    ensures
        ({
            let s1 = event_step(m, SwarmEventView::OutboundFailure { request_id, error });
            let s2 = event_step(s1.next, SwarmEventView::Response { request_id, response: later });
            &&& s1.actions == seq![
                ActionView::Signal {
                    reply: m.requests[request_id],
                    value: ReplyView::File(Err(error)),
                },
            ]
            &&& !s1.next.requests.contains_key(request_id)
            &&& s2.next == s1.next
            &&& told(s2.actions, reply) == 0
        }),
{
    lemma_told_one(ActionView::Report { notice: Notice::StaleRequest { request_id } }, reply);
}

/// True when the input ends the file request `request_id` or tracks a new
/// one under its name.
pub open spec fn settles_request(input: InputView, request_id: RequestId) -> bool {
    match input {
        InputView::Swarm(SwarmEventView::Response { request_id: r, .. }) => r == request_id,
        InputView::Swarm(SwarmEventView::OutboundFailure { request_id: r, .. }) => r == request_id,
        InputView::Outcome(OutcomeView::RequestSent { request, .. }) => request == request_id,
        _ => false,
    }
}

/// A file request stays outstanding, and its caller unanswered by it, until
/// its answer or its failure comes.
pub proof fn lemma_request_waits(m: Model, request_id: RequestId, input: InputView)
    requires
        m.requests.contains_key(request_id),
        !settles_request(input, request_id),
    ensures
        step(m, input).next.requests.contains_key(request_id),
        step(m, input).next.requests[request_id] == m.requests[request_id],
{
}

/// A channel on which a peer waits is used once: a second answer on it is
/// not sent.
pub proof fn lemma_channel_used_once(
    m: Model,
    channel: ChannelId,
    first: Seq<char>,
    second: Seq<char>,
)
    ensures
        ({
            let s1 = command_step(m, CommandView::RespondFile { file: first, channel });
            let s2 = command_step(s1.next, CommandView::RespondFile { file: second, channel });
            &&& m.channels.contains(channel) ==> s1.actions == seq![
                ActionView::SendResponse { channel, response: first },
            ]
            &&& s2.actions == seq![
                ActionView::Report { notice: Notice::ChannelNotOpen { channel } },
            ]
            &&& s2.next == s1.next
        }),
{
}

/// The actor neither forgets a key that it advertises nor changes its
/// identity.
pub proof fn lemma_step_keeps_provided(m: Model, input: InputView)
    ensures
        step(m, input).next.local == m.local,
        m.provided.subset_of(step(m, input).next.provided),
{
}

/// What holds of one step holds of a run.
pub proof fn lemma_run_keeps_provided(m: Model, inputs: Seq<InputView>)
    ensures
        run(m, inputs).next.local == m.local,
        m.provided.subset_of(run(m, inputs).next.provided),
    decreases inputs.len(),
{
    if inputs.len() > 0 {
        lemma_run_keeps_provided(m, inputs.drop_last());
        lemma_step_keeps_provided(run(m, inputs.drop_last()).next, inputs.last());
    }
}

/// Every peer that a lookup of providers has found, or finds in its last
/// report, is in the answer.
pub proof fn lemma_found_is_answered(
    m: Model,
    id: QueryId,
    result: QueryResultView,
    last: bool,
    peer: Seq<u8>,
)
    requires
        m.queries.contains_key(id),
        m.queries[id].kind == QueryKind::GetProviders,
        is_terminal(result, last),
        m.queries[id].found.contains(peer) || (result matches QueryResultView::Providers(peers)
            && peers.contains(peer)),
    ensures
        ({
            let s = event_step(m, SwarmEventView::QueryProgressed { id, result, last });
            &&& s.actions[0] matches ActionView::Signal {
                reply,
                value: ReplyView::Providers(peers),
            }
            &&& reply == m.queries[id].reply
            &&& peers.contains(peer)
        }),
{
}

/// A lookup that found nobody, for a key that this node does not advertise,
/// answers with the empty set and reports no failure.
pub proof fn lemma_nobody_found_is_empty(m: Model, id: QueryId)
    requires
        m.queries.contains_key(id),
        m.queries[id].kind == QueryKind::GetProviders,
        m.queries[id].found == Set::<Seq<u8>>::empty(),
        !m.provided.contains(m.queries[id].key),
    ensures
        event_step(
            m,
            SwarmEventView::QueryProgressed { id, result: QueryResultView::Finished, last: true },
        ).actions == seq![
            ActionView::Signal {
                reply: m.queries[id].reply,
                value: ReplyView::Providers(Set::<Seq<u8>>::empty()),
            },
        ],
{
}

/// Provider consistency: once the actor has taken the command to advertise
/// a key, every lookup of that key's providers that ends later, whatever
/// happened in between, names this node in its answer.
pub proof fn lemma_provider_consistency(
    m: Model,
    key: Seq<char>,
    sender: ReplyId,
    between: Seq<InputView>,
    id: QueryId,
    result: QueryResultView,
    last: bool,
)
    requires
        ({
            let advertised = command_step(
                m,
                CommandView::StartProviding { file_name: key, sender },
            ).next;
            let later = run(advertised, between).next;
            &&& later.queries.contains_key(id)
            &&& later.queries[id].kind == QueryKind::GetProviders
            &&& later.queries[id].key == key
        }),
        is_terminal(result, last),
    ensures
        ({
            let advertised = command_step(
                m,
                CommandView::StartProviding { file_name: key, sender },
            ).next;
            let later = run(advertised, between).next;
            let s = event_step(later, SwarmEventView::QueryProgressed { id, result, last });
            &&& s.actions[0] matches ActionView::Signal {
                reply,
                value: ReplyView::Providers(peers),
            }
            &&& reply == later.queries[id].reply
            &&& peers.contains(m.local)
        }),
{
    let advertised = command_step(m, CommandView::StartProviding { file_name: key, sender }).next;
    assert(advertised.provided.contains(key));
    lemma_run_keeps_provided(advertised, between);
}

/// Inputs are taken one at a time and in order: what a run does is what its
/// first part does, followed by what the rest does from where the first part
/// ended. No action of a later input comes before an action of an earlier one.
pub proof fn lemma_run_in_order(m: Model, first: Seq<InputView>, rest: Seq<InputView>)
    ensures
        run(m, first + rest).next == run(run(m, first).next, rest).next,
        run(m, first + rest).actions == run(m, first).actions + run(
            run(m, first).next,
            rest,
        ).actions,
    decreases rest.len(),
{
    if rest.len() == 0 {
        assert(first + rest =~= first);
        assert(run(m, first).actions + Seq::<ActionView>::empty() =~= run(m, first).actions);
    } else {
        assert((first + rest).drop_last() =~= first + rest.drop_last());
        assert((first + rest).last() == rest.last());
        lemma_run_in_order(m, first, rest.drop_last());
        let mid = run(m, first);
        let before = run(mid.next, rest.drop_last());
        let last = step(before.next, rest.last());
        assert(mid.actions + (before.actions + last.actions) =~= (mid.actions + before.actions)
            + last.actions);
    }
}

/// The outcome of binding a listener or of a dial goes to its caller in the
/// very step that takes it: nothing of a later input can come before it.
pub proof fn lemma_transport_outcome_is_immediate(
    m: Model,
    reply: ReplyId,
    result: Result<(), Seq<char>>,
)
    ensures
        outcome_step(m, OutcomeView::Listening { reply, result }) == (Step {
            next: m,
            actions: seq![ActionView::Signal { reply, value: ReplyView::Listening(result) }],
        }),
        outcome_step(m, OutcomeView::Dialed { reply, result }) == (Step {
            next: m,
            actions: seq![ActionView::Signal { reply, value: ReplyView::Dialed(result) }],
        }),
{
}

/// The names of the outstanding queries whose caller waits on `reply`.
pub open spec fn waiting_queries(m: Model, reply: ReplyId) -> Set<QueryId> {
    m.queries.dom().filter(|id: QueryId| m.queries[id].reply == reply)
}

/// The names of the outstanding file requests whose caller waits on `reply`.
pub open spec fn waiting_requests(m: Model, reply: ReplyId) -> Set<RequestId> {
    m.requests.dom().filter(|id: RequestId| m.requests[id] == reply)
}

/// How many outstanding entries hold the reply channel `reply`.
pub open spec fn waiting(m: Model, reply: ReplyId) -> nat {
    waiting_queries(m, reply).len() + waiting_requests(m, reply).len()
}

/// True when the state holds finitely many entries.
pub open spec fn finite(m: Model) -> bool {
    m.queries.dom().finite() && m.requests.dom().finite()
}

/// How often the input hands the reply channel `reply` to the actor's
/// bookkeeping: once where it is the outcome of an operation asked for on
/// behalf of that channel.
pub open spec fn enters(input: InputView, reply: ReplyId) -> nat {
    match input {
        InputView::Outcome(o) => {
            let r = match o {
                OutcomeView::Listening { reply: r, .. } => r,
                OutcomeView::Dialed { reply: r, .. } => r,
                OutcomeView::QueryStarted { reply: r, .. } => r,
                OutcomeView::RequestSent { reply: r, .. } => r,
            };
            if r == reply {
                1
            } else {
                0
            }
        },
        _ => 0,
    }
}

/// How often a run of inputs hands the reply channel `reply` over.
pub open spec fn entered(inputs: Seq<InputView>, reply: ReplyId) -> nat
    decreases inputs.len(),
{
    if inputs.len() == 0 {
        0
    } else {
        entered(inputs.drop_last(), reply) + enters(inputs.last(), reply)
    }
}

/// Adding addresses to the routing table answers no caller.
proof fn lemma_told_sightings(peers: Seq<(Seq<u8>, Seq<char>)>, reply: ReplyId)
    ensures
        told(crate::event_loop::sightings(peers), reply) == 0,
    decreases peers.len(),
{
    let all = crate::event_loop::sightings(peers);
    if peers.len() > 0 {
        assert(all.drop_last() =~= crate::event_loop::sightings(peers.drop_last()));
        lemma_told_sightings(peers.drop_last(), reply);
    }
}

/// How the entries that wait on `reply` change when an entry is tracked
/// under the name `id`, with `held` telling whether it waits on `reply`.
proof fn lemma_count_insert<V>(
    before: Map<u64, V>,
    id: u64,
    value: V,
    waits: spec_fn(V) -> bool,
)
    requires
        before.dom().finite(),
    ensures
        before.insert(id, value).dom().finite(),
        before.dom().filter(|k: u64| waits(before[k])).finite(),
        before.insert(id, value).dom().filter(|k: u64| waits(before.insert(id, value)[k])).len() + (
        if before.contains_key(id) && waits(before[id]) {
            1nat
        } else {
            0nat
        }) == before.dom().filter(|k: u64| waits(before[k])).len() + (if waits(value) {
            1nat
        } else {
            0nat
        }),
{
    let after = before.insert(id, value);
    let old_set = before.dom().filter(|k: u64| waits(before[k]));
    let new_set = after.dom().filter(|k: u64| waits(after[k]));
    before.dom().lemma_len_filter(|k: u64| waits(before[k]));
    vstd::set::axiom_set_insert_finite(before.dom(), id);
    assert(after.dom() =~= before.dom().insert(id));
    vstd::set::axiom_set_remove_len(old_set, id);
    vstd::set::axiom_set_remove_finite(old_set, id);
    if waits(value) {
        assert(new_set =~= old_set.remove(id).insert(id));
        vstd::set::axiom_set_insert_len(old_set.remove(id), id);
    } else {
        assert(new_set =~= old_set.remove(id));
    }
}

/// How the entries that wait on `reply` change when the entry under the
/// name `id` ends.
proof fn lemma_count_remove<V>(before: Map<u64, V>, id: u64, waits: spec_fn(V) -> bool)
    requires
        before.dom().finite(),
    ensures
        before.remove(id).dom().finite(),
        before.dom().filter(|k: u64| waits(before[k])).finite(),
        before.remove(id).dom().filter(|k: u64| waits(before.remove(id)[k])).len() + (
        if before.contains_key(id) && waits(before[id]) {
            1nat
        } else {
            0nat
        }) == before.dom().filter(|k: u64| waits(before[k])).len(),
{
    let after = before.remove(id);
    let old_set = before.dom().filter(|k: u64| waits(before[k]));
    let new_set = after.dom().filter(|k: u64| waits(after[k]));
    before.dom().lemma_len_filter(|k: u64| waits(before[k]));
    vstd::set::axiom_set_remove_finite(before.dom(), id);
    assert(after.dom() =~= before.dom().remove(id));
    vstd::set::axiom_set_remove_len(old_set, id);
    assert(new_set =~= old_set.remove(id));
}

/// Exactly once: on every input, each reply channel is accounted for. What
/// was held and what the input hands over is what is still held and what
/// was answered. So a channel is answered when its entry ends, or at once
/// where no entry is made for it, and at no other time.
pub proof fn lemma_replies_are_conserved(m: Model, input: InputView, reply: ReplyId)
    requires
        finite(m),
    ensures
        finite(step(m, input).next),
        waiting(m, reply) + enters(input, reply) == waiting(step(m, input).next, reply) + told(
            step(m, input).actions,
            reply,
        ),
{
    let s = step(m, input);
    let waits_query = |q: QueryModel| q.reply == reply;
    let waits_request = |r: ReplyId| r == reply;
    assert(waiting_queries(m, reply) =~= m.queries.dom().filter(
        |k: u64| waits_query(m.queries[k]),
    ));
    assert(waiting_requests(m, reply) =~= m.requests.dom().filter(
        |k: u64| waits_request(m.requests[k]),
    ));
    assert(waiting_queries(s.next, reply) =~= s.next.queries.dom().filter(
        |k: u64| waits_query(s.next.queries[k]),
    ));
    assert(waiting_requests(s.next, reply) =~= s.next.requests.dom().filter(
        |k: u64| waits_request(s.next.requests[k]),
    ));
    match input {
        InputView::Command(c) => {
            assert(s.actions =~= seq![s.actions[0]]);
            lemma_told_one(s.actions[0], reply);
            assert(s.next.queries == m.queries);
            assert(s.next.requests == m.requests);
        },
        InputView::Outcome(o) => {
            match o {
                OutcomeView::Listening { .. } => {
                    assert(s.actions =~= seq![s.actions[0]]);
                    lemma_told_one(s.actions[0], reply);
                },
                OutcomeView::Dialed { .. } => {
                    assert(s.actions =~= seq![s.actions[0]]);
                    lemma_told_one(s.actions[0], reply);
                },
                OutcomeView::QueryStarted { query, kind, key, reply: r } => {
                    lemma_count_insert(
                        m.queries,
                        query,
                        crate::event_loop::new_query(kind, key, r),
                        waits_query,
                    );
                    if m.queries.contains_key(query) {
                        assert(s.actions =~= seq![s.actions[0]]);
                        lemma_told_one(s.actions[0], reply);
                    }
                },
                OutcomeView::RequestSent { request, reply: r } => {
                    lemma_count_insert(m.requests, request, r, waits_request);
                    if m.requests.contains_key(request) {
                        assert(s.actions =~= seq![s.actions[0]]);
                        lemma_told_one(s.actions[0], reply);
                    }
                },
            }
        },
        InputView::Swarm(e) => {
            match e {
                SwarmEventView::NewListenAddr { .. } => {
                    assert(s.actions =~= seq![s.actions[0]]);
                    lemma_told_one(s.actions[0], reply);
                },
                SwarmEventView::Discovered { peers } => {
                    lemma_told_sightings(peers, reply);
                },
                SwarmEventView::QueryProgressed { id, result, last } => {
                    if !m.queries.contains_key(id) {
                        lemma_stale_report_tells_nobody(m, id, result, last, reply);
                    } else {
                        let q = absorb(m.queries[id], result);
                        if is_terminal(result, last) {
                            lemma_told_conclusion(m, id, q, failure_of(result), reply);
                            lemma_count_remove(m.queries, id, waits_query);
                        } else {
                            lemma_count_insert(m.queries, id, q, waits_query);
                        }
                    }
                },
                SwarmEventView::InboundRequest { .. } => {
                    assert(s.actions =~= seq![s.actions[0]]);
                    lemma_told_one(s.actions[0], reply);
                },
                SwarmEventView::InboundClosed { .. } => {},
                SwarmEventView::Response { request_id, .. } => {
                    assert(s.actions =~= seq![s.actions[0]]);
                    lemma_told_one(s.actions[0], reply);
                    lemma_count_remove(m.requests, request_id, waits_request);
                },
                SwarmEventView::OutboundFailure { request_id, .. } => {
                    assert(s.actions =~= seq![s.actions[0]]);
                    lemma_told_one(s.actions[0], reply);
                    lemma_count_remove(m.requests, request_id, waits_request);
                },
            }
        },
    }
}

/// Exactly once, over a run: the reply channels held at the start and those
/// handed over on the way are those still held at the end and those that
/// were answered.
pub proof fn lemma_run_conserves_replies(m: Model, inputs: Seq<InputView>, reply: ReplyId)
    requires
        finite(m),
    ensures
        finite(run(m, inputs).next),
        waiting(m, reply) + entered(inputs, reply) == waiting(run(m, inputs).next, reply) + told(
            run(m, inputs).actions,
            reply,
        ),
    decreases inputs.len(),
{
    if inputs.len() > 0 {
        let before = run(m, inputs.drop_last());
        lemma_run_conserves_replies(m, inputs.drop_last(), reply);
        lemma_replies_are_conserved(before.next, inputs.last(), reply);
        lemma_told_concat(before.actions, step(before.next, inputs.last()).actions, reply);
    }
}

/// A reply channel that was handed over once to an actor that held none,
/// and that no entry holds any more, has been answered exactly once.
pub proof fn lemma_settled_reply_was_told_once(
    local: Seq<u8>,
    inputs: Seq<InputView>,
    reply: ReplyId,
)
    requires
        entered(inputs, reply) == 1,
        waiting(run(crate::event_loop::fresh(local), inputs).next, reply) == 0,
    ensures
        told(run(crate::event_loop::fresh(local), inputs).actions, reply) == 1,
{
    let m = crate::event_loop::fresh(local);
    assert(waiting_queries(m, reply) =~= Set::<QueryId>::empty());
    assert(waiting_requests(m, reply) =~= Set::<RequestId>::empty());
    lemma_run_conserves_replies(m, inputs, reply);
}

} // verus!
