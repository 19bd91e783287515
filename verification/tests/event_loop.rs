use dfs_node::command::{Command, QueryError, Reply, TransferError};
use dfs_node::event::{
    Action, Event, Input, Notice, Outcome, QueryKind, QueryResult, Sighting, SwarmEvent,
};
use dfs_node::event_loop::EventLoop;
use dfs_node::frame::FrameError;
use dfs_node::peer::PeerId;
use dfs_node::protocol::{FileResponse, FileSwapCodec, FileSwapProtocol};

fn peer(n: u8) -> PeerId {
    PeerId::new(vec![0, 36, 8, 1, n])
}

fn node(n: u8) -> EventLoop {
    EventLoop::new(peer(n))
}

fn started(query: u64, kind: QueryKind, key: &str, reply: u64) -> Outcome {
    Outcome::QueryStarted { query, kind, key: key.to_string(), reply }
}

fn progressed(id: u64, result: QueryResult, last: bool) -> SwarmEvent {
    SwarmEvent::QueryProgressed { id, result, last }
}

/// The providers that the single action tells the caller on `reply`.
fn providers_told(actions: Vec<Action>, reply: u64) -> Vec<Vec<u8>> {
    assert_eq!(actions.len(), 1, "{:?}", actions);
    match actions.into_iter().next() {
        Some(Action::Signal { reply: r, value: Reply::Providers(set) }) => {
            assert_eq!(r, reply);
            let mut bytes: Vec<Vec<u8>> = set.into_vec().into_iter().map(|p| p.bytes).collect();
            bytes.sort();
            bytes
        }
        other => panic!("{:?}", other),
    }
}

#[test]
fn a_new_actor_holds_nothing() {
    let actor = node(1);
    assert_eq!(actor.outstanding(), (0, 0));
    assert!(!actor.is_provided(&"report.txt".to_string()));
}

#[test]
fn start_listening_asks_for_a_listener() {
    let mut actor = node(1);
    let actions = actor.handle_command(Command::StartListening {
        addr: "/ip4/0.0.0.0/tcp/0".to_string(),
        sender: 7,
    });
    assert_eq!(actions.len(), 1);
    match &actions[0] {
        Action::Listen { addr, reply } => {
            assert_eq!(addr, "/ip4/0.0.0.0/tcp/0");
            assert_eq!(*reply, 7);
        }
        other => panic!("{:?}", other),
    }
    assert_eq!(actor.outstanding(), (0, 0));
}

#[test]
fn listening_outcome_goes_to_the_caller_at_once() {
    let mut actor = node(1);
    let actions = actor.handle_outcome(Outcome::Listening { reply: 7, result: Ok(()) });
    assert!(matches!(
        actions.as_slice(),
        [Action::Signal { reply: 7, value: Reply::Listening(Ok(())) }]
    ));
    let actions = actor.handle_outcome(Outcome::Listening {
        reply: 8,
        result: Err("address in use".to_string()),
    });
    match actions.as_slice() {
        [Action::Signal { reply: 8, value: Reply::Listening(Err(reason)) }] => {
            assert_eq!(reason, "address in use")
        }
        other => panic!("{:?}", other),
    }
}

#[test]
fn dial_asks_for_a_dial_and_tells_its_outcome() {
    let mut actor = node(1);
    let actions = actor.handle_command(Command::Dial {
        peer_id: peer(2),
        peer_addr: "/ip4/10.0.0.2/tcp/4001".to_string(),
        sender: 3,
    });
    match actions.as_slice() {
        [Action::Dial { peer_id, peer_addr, reply: 3 }] => {
            assert_eq!(peer_id.bytes, peer(2).bytes);
            assert_eq!(peer_addr, "/ip4/10.0.0.2/tcp/4001");
        }
        other => panic!("{:?}", other),
    }
    let actions =
        actor.handle_outcome(Outcome::Dialed { reply: 3, result: Err("refused".to_string()) });
    match actions.as_slice() {
        [Action::Signal { reply: 3, value: Reply::Dialed(Err(reason)) }] => {
            assert_eq!(reason, "refused")
        }
        other => panic!("{:?}", other),
    }
}

#[test]
fn start_providing_is_answered_when_its_query_ends() {
    let mut actor = node(1);
    let actions = actor.handle_command(Command::StartProviding {
        file_name: "report.txt".to_string(),
        sender: 11,
    });
    match actions.as_slice() {
        [Action::StartProviding { key, reply: 11 }] => assert_eq!(key, "report.txt"),
        other => panic!("{:?}", other),
    }
    assert!(actor.is_provided(&"report.txt".to_string()));
    assert!(actor
        .handle_outcome(started(40, QueryKind::StartProviding, "report.txt", 11))
        .is_empty());
    assert_eq!(actor.outstanding(), (1, 0));
    let actions = actor.handle_event(progressed(40, QueryResult::Finished, true));
    assert!(matches!(
        actions.as_slice(),
        [Action::Signal { reply: 11, value: Reply::Providing }]
    ));
    assert_eq!(actor.outstanding(), (0, 0));
}

#[test]
fn provider_is_found_by_another_node() {
    let mut p = node(1);
    let mut q = node(2);
    p.handle_command(Command::StartProviding { file_name: "report.txt".to_string(), sender: 1 });
    p.handle_outcome(started(5, QueryKind::StartProviding, "report.txt", 1));
    p.handle_event(progressed(5, QueryResult::Finished, true));

    let actions = q.handle_command(Command::GetProviders {
        file_name: "report.txt".to_string(),
        sender: 2,
    });
    match actions.as_slice() {
        [Action::GetProviders { key, reply: 2 }] => assert_eq!(key, "report.txt"),
        other => panic!("{:?}", other),
    }
    q.handle_outcome(started(9, QueryKind::GetProviders, "report.txt", 2));
    assert!(q
        .handle_event(progressed(9, QueryResult::Providers(vec![peer(1)]), false))
        .is_empty());
    let actions = q.handle_event(progressed(9, QueryResult::Finished, true));
    assert_eq!(providers_told(actions, 2), vec![peer(1).bytes]);
}

#[test]
fn own_lookup_names_this_node_once_it_provides() {
    let mut actor = node(1);
    actor.handle_command(Command::StartProviding { file_name: "report.txt".to_string(), sender: 1 });
    actor.handle_outcome(started(5, QueryKind::StartProviding, "report.txt", 1));
    actor.handle_event(progressed(5, QueryResult::Finished, true));
    actor.handle_outcome(started(6, QueryKind::GetProviders, "report.txt", 2));
    let actions = actor.handle_event(progressed(6, QueryResult::Finished, true));
    assert_eq!(providers_told(actions, 2), vec![peer(1).bytes]);

    actor.handle_outcome(started(7, QueryKind::GetProviders, "other.txt", 3));
    let actions = actor.handle_event(progressed(7, QueryResult::Finished, true));
    assert_eq!(providers_told(actions, 3), Vec::<Vec<u8>>::new());
}

#[test]
fn providers_add_up_over_the_steps_of_a_lookup() {
    let mut actor = node(1);
    actor.handle_outcome(started(9, QueryKind::GetProviders, "report.txt", 2));
    actor.handle_event(progressed(9, QueryResult::Providers(vec![peer(3), peer(4)]), false));
    actor.handle_event(progressed(9, QueryResult::Providers(vec![peer(4), peer(5)]), false));
    assert_eq!(actor.outstanding(), (1, 0));
    let actions = actor.handle_event(progressed(9, QueryResult::Providers(vec![peer(6)]), true));
    assert_eq!(
        providers_told(actions, 2),
        vec![peer(3).bytes, peer(4).bytes, peer(5).bytes, peer(6).bytes]
    );
}

#[test]
fn missing_key_resolves_with_the_empty_set() {
    let mut actor = node(2);
    actor.handle_command(Command::GetProviders { file_name: "missing-key".to_string(), sender: 4 });
    actor.handle_outcome(started(1, QueryKind::GetProviders, "missing-key", 4));
    let actions = actor.handle_event(progressed(1, QueryResult::Finished, true));
    assert_eq!(providers_told(actions, 4), Vec::<Vec<u8>>::new());
    assert_eq!(actor.outstanding(), (0, 0));
}

#[test]
fn failed_lookup_tells_what_was_found_and_logs_the_failure() {
    let mut actor = node(2);
    actor.handle_outcome(started(1, QueryKind::GetProviders, "report.txt", 4));
    actor.handle_event(progressed(1, QueryResult::Providers(vec![peer(8)]), false));
    let mut actions = actor.handle_event(progressed(1, QueryResult::Failed(QueryError::Timeout), false));
    assert_eq!(actions.len(), 2);
    let report = actions.pop();
    assert!(matches!(
        report,
        Some(Action::Report { notice: Notice::QueryFailed { id: 1, error: QueryError::Timeout } })
    ));
    assert_eq!(providers_told(actions, 4), vec![peer(8).bytes]);
    assert_eq!(actor.outstanding(), (0, 0));
}

#[test]
fn second_terminal_event_is_discarded() {
    let mut actor = node(1);
    actor.handle_outcome(started(40, QueryKind::StartProviding, "report.txt", 11));
    let first = actor.handle_event(progressed(40, QueryResult::Finished, true));
    assert!(matches!(first.as_slice(), [Action::Signal { reply: 11, .. }]));
    let second = actor.handle_event(progressed(40, QueryResult::Finished, true));
    assert!(matches!(
        second.as_slice(),
        [Action::Report { notice: Notice::StaleQuery { id: 40 } }]
    ));
    let third = actor.handle_event(progressed(40, QueryResult::Failed(QueryError::Timeout), true));
    assert!(matches!(
        third.as_slice(),
        [Action::Report { notice: Notice::StaleQuery { id: 40 } }]
    ));
}

#[test]
fn report_of_an_unknown_query_is_discarded() {
    let mut actor = node(1);
    let actions = actor.handle_event(progressed(77, QueryResult::Providers(vec![peer(2)]), false));
    assert!(matches!(
        actions.as_slice(),
        [Action::Report { notice: Notice::StaleQuery { id: 77 } }]
    ));
    assert_eq!(actor.outstanding(), (0, 0));
}

#[test]
fn record_lookup_tells_the_first_value_found() {
    let mut actor = node(1);
    actor.handle_outcome(started(3, QueryKind::GetRecord, "colour", 5));
    actor.handle_event(progressed(3, QueryResult::Record(b"blue".to_vec()), false));
    actor.handle_event(progressed(3, QueryResult::Record(b"red".to_vec()), false));
    let actions = actor.handle_event(progressed(3, QueryResult::Finished, true));
    match actions.as_slice() {
        [Action::Signal { reply: 5, value: Reply::Record(Ok(value)) }] => {
            assert_eq!(value, &b"blue".to_vec())
        }
        other => panic!("{:?}", other),
    }
}

#[test]
fn record_lookup_without_a_value_is_not_found() {
    let mut actor = node(1);
    actor.handle_outcome(started(3, QueryKind::GetRecord, "colour", 5));
    let actions = actor.handle_event(progressed(3, QueryResult::Finished, true));
    assert!(matches!(
        actions.as_slice(),
        [Action::Signal { reply: 5, value: Reply::Record(Err(QueryError::NotFound)) }]
    ));
    actor.handle_outcome(started(4, QueryKind::GetRecord, "colour", 6));
    let actions =
        actor.handle_event(progressed(4, QueryResult::Failed(QueryError::QuorumFailed), true));
    assert!(matches!(
        actions.as_slice(),
        [
            Action::Signal { reply: 6, value: Reply::Record(Err(QueryError::QuorumFailed)) },
            Action::Report {
                notice: Notice::QueryFailed { id: 4, error: QueryError::QuorumFailed }
            }
        ]
    ));
}

#[test]
fn storing_a_record_tells_how_it_went() {
    let mut actor = node(1);
    actor.handle_outcome(started(3, QueryKind::PutRecord, "colour", 5));
    let actions = actor.handle_event(progressed(3, QueryResult::Finished, true));
    assert!(matches!(
        actions.as_slice(),
        [Action::Signal { reply: 5, value: Reply::Stored(Ok(())) }]
    ));
    actor.handle_outcome(started(4, QueryKind::PutRecord, "colour", 6));
    let actions =
        actor.handle_event(progressed(4, QueryResult::Failed(QueryError::QuorumFailed), true));
    assert!(matches!(
        actions.as_slice(),
        [Action::Signal { reply: 6, value: Reply::Stored(Err(QueryError::QuorumFailed)) }, Action::Report { .. }]
    ));
}

#[test]
fn a_reused_query_name_gives_up_the_earlier_caller() {
    let mut actor = node(1);
    assert!(actor.handle_outcome(started(3, QueryKind::GetProviders, "a", 5)).is_empty());
    let actions = actor.handle_outcome(started(3, QueryKind::GetProviders, "b", 6));
    assert!(matches!(actions.as_slice(), [Action::Abandon { reply: 5 }]));
    assert_eq!(actor.outstanding(), (1, 0));
    let actions = actor.handle_event(progressed(3, QueryResult::Finished, true));
    assert_eq!(providers_told(actions, 6), Vec::<Vec<u8>>::new());
}

#[test]
fn request_stays_pending_until_the_peer_responds() {
    let mut q = node(2);
    let mut p = node(1);
    let actions = q.handle_command(Command::RequestFile {
        file_name: "report.txt".to_string(),
        peer: peer(1),
        sender: 21,
    });
    match actions.as_slice() {
        [Action::SendRequest { peer: to, request, reply: 21 }] => {
            assert_eq!(to.bytes, peer(1).bytes);
            assert_eq!(request.0, "report.txt");
        }
        other => panic!("{:?}", other),
    }
    assert!(q.handle_outcome(Outcome::RequestSent { request: 100, reply: 21 }).is_empty());
    assert_eq!(q.outstanding(), (0, 1));

    let actions = p.handle_event(SwarmEvent::InboundRequest {
        request: "report.txt".to_string(),
        channel: 55,
    });
    match actions.as_slice() {
        [Action::Emit { event: Event::InboundRequest { request, channel: 55 } }] => {
            assert_eq!(request, "report.txt")
        }
        other => panic!("{:?}", other),
    }

    assert!(q
        .handle_event(SwarmEvent::NewListenAddr { address: "/ip4/127.0.0.1/tcp/9".to_string() })
        .iter()
        .all(|a| matches!(a, Action::Announce { .. })));
    assert_eq!(q.outstanding(), (0, 1));

    let actions =
        p.handle_command(Command::RespondFile { file: "contents".to_string(), channel: 55 });
    let response = match actions.into_iter().next() {
        Some(Action::SendResponse { channel: 55, response }) => response,
        other => panic!("{:?}", other),
    };
    assert_eq!(response, FileResponse("contents".to_string()));

    let mut wire = Vec::new();
    let mut codec = FileSwapCodec();
    assert_eq!(codec.write_response(&FileSwapProtocol(), &mut wire, response), Ok(()));
    let arrived = codec.read_response(&FileSwapProtocol(), &wire).expect("a whole frame");

    let actions =
        q.handle_event(SwarmEvent::Response { request_id: 100, response: arrived.0 });
    match actions.as_slice() {
        [Action::Signal { reply: 21, value: Reply::File(Ok(content)) }] => {
            assert_eq!(content, "contents")
        }
        other => panic!("{:?}", other),
    }
    assert_eq!(q.outstanding(), (0, 0));
}

#[test]
fn truncated_frame_fails_the_pending_request() {
    let mut q = node(2);
    q.handle_command(Command::RequestFile {
        file_name: "report.txt".to_string(),
        peer: peer(1),
        sender: 21,
    });
    q.handle_outcome(Outcome::RequestSent { request: 100, reply: 21 });
    let mut codec = FileSwapCodec();
    let error = codec
        .read_response(&FileSwapProtocol(), &[0x88])
        .expect_err("the stream closed inside the length prefix");
    assert_eq!(error, FrameError::UnexpectedEof);
    let actions = q.handle_event(SwarmEvent::OutboundFailure {
        request_id: 100,
        error: TransferError::Protocol(error),
    });
    assert!(matches!(
        actions.as_slice(),
        [Action::Signal {
            reply: 21,
            value: Reply::File(Err(TransferError::Protocol(FrameError::UnexpectedEof)))
        }]
    ));
    assert_eq!(q.outstanding(), (0, 0));
}

#[test]
fn each_transfer_failure_reaches_the_caller() {
    for error in [
        TransferError::DialFailure,
        TransferError::Timeout,
        TransferError::ConnectionClosed,
        TransferError::UnsupportedProtocols,
        TransferError::Protocol(FrameError::InvalidUtf8),
        TransferError::Protocol(FrameError::TooLarge),
        TransferError::Protocol(FrameError::LengthOverflow),
    ] {
        let mut actor = node(2);
        actor.handle_outcome(Outcome::RequestSent { request: 1, reply: 2 });
        let actions = actor.handle_event(SwarmEvent::OutboundFailure { request_id: 1, error });
        match actions.as_slice() {
            [Action::Signal { reply: 2, value: Reply::File(Err(e)) }] => assert_eq!(*e, error),
            other => panic!("{:?}", other),
        }
    }
}

#[test]
fn second_response_is_discarded() {
    let mut actor = node(2);
    actor.handle_outcome(Outcome::RequestSent { request: 1, reply: 2 });
    actor.handle_event(SwarmEvent::Response { request_id: 1, response: "a".to_string() });
    let actions =
        actor.handle_event(SwarmEvent::Response { request_id: 1, response: "b".to_string() });
    assert!(matches!(
        actions.as_slice(),
        [Action::Report { notice: Notice::StaleRequest { request_id: 1 } }]
    ));
    let actions = actor.handle_event(SwarmEvent::OutboundFailure {
        request_id: 1,
        error: TransferError::Timeout,
    });
    assert!(matches!(
        actions.as_slice(),
        [Action::Report { notice: Notice::StaleRequest { request_id: 1 } }]
    ));
}

#[test]
fn a_reused_request_name_gives_up_the_earlier_caller() {
    let mut actor = node(2);
    actor.handle_outcome(Outcome::RequestSent { request: 1, reply: 2 });
    let actions = actor.handle_outcome(Outcome::RequestSent { request: 1, reply: 3 });
    assert!(matches!(actions.as_slice(), [Action::Abandon { reply: 2 }]));
    let actions =
        actor.handle_event(SwarmEvent::Response { request_id: 1, response: "a".to_string() });
    assert!(matches!(actions.as_slice(), [Action::Signal { reply: 3, .. }]));
}

#[test]
fn a_channel_is_used_once() {
    let mut actor = node(1);
    actor.handle_event(SwarmEvent::InboundRequest { request: "f".to_string(), channel: 9 });
    let first = actor.handle_command(Command::RespondFile { file: "x".to_string(), channel: 9 });
    assert!(matches!(first.as_slice(), [Action::SendResponse { channel: 9, .. }]));
    let second = actor.handle_command(Command::RespondFile { file: "y".to_string(), channel: 9 });
    assert!(matches!(
        second.as_slice(),
        [Action::Report { notice: Notice::ChannelNotOpen { channel: 9 } }]
    ));
}

#[test]
fn a_closed_channel_takes_no_response() {
    let mut actor = node(1);
    actor.handle_event(SwarmEvent::InboundRequest { request: "f".to_string(), channel: 9 });
    assert!(actor.handle_event(SwarmEvent::InboundClosed { channel: 9 }).is_empty());
    let actions = actor.handle_command(Command::RespondFile { file: "x".to_string(), channel: 9 });
    assert!(matches!(
        actions.as_slice(),
        [Action::Report { notice: Notice::ChannelNotOpen { channel: 9 } }]
    ));
    let actions = actor.handle_command(Command::RespondFile { file: "x".to_string(), channel: 10 });
    assert!(matches!(
        actions.as_slice(),
        [Action::Report { notice: Notice::ChannelNotOpen { channel: 10 } }]
    ));
}

#[test]
fn discovered_peers_go_to_the_routing_table_in_order() {
    let mut actor = node(1);
    let actions = actor.handle_event(SwarmEvent::Discovered {
        peers: vec![
            Sighting { peer: peer(2), addr: "/ip4/10.0.0.2/tcp/1".to_string() },
            Sighting { peer: peer(3), addr: "/ip4/10.0.0.3/tcp/1".to_string() },
        ],
    });
    match actions.as_slice() {
        [Action::AddAddress { peer: first, addr: a }, Action::AddAddress { peer: second, addr: b }] =>
        {
            assert_eq!(first.bytes, peer(2).bytes);
            assert_eq!(a, "/ip4/10.0.0.2/tcp/1");
            assert_eq!(second.bytes, peer(3).bytes);
            assert_eq!(b, "/ip4/10.0.0.3/tcp/1");
        }
        other => panic!("{:?}", other),
    }
    assert!(actor.handle_event(SwarmEvent::Discovered { peers: vec![] }).is_empty());
}

#[test]
fn new_listen_address_is_announced() {
    let mut actor = node(1);
    let actions = actor
        .handle_event(SwarmEvent::NewListenAddr { address: "/ip4/127.0.0.1/tcp/9".to_string() });
    match actions.as_slice() {
        [Action::Announce { address }] => assert_eq!(address, "/ip4/127.0.0.1/tcp/9"),
        other => panic!("{:?}", other),
    }
}

#[test]
fn step_takes_every_kind_of_input() {
    let mut actor = node(1);
    let asked = actor.step(Input::Command(Command::GetProviders {
        file_name: "k".to_string(),
        sender: 1,
    }));
    assert!(matches!(asked.as_slice(), [Action::GetProviders { reply: 1, .. }]));
    assert!(actor.step(Input::Outcome(started(2, QueryKind::GetProviders, "k", 1))).is_empty());
    let told = actor.step(Input::Swarm(progressed(2, QueryResult::Providers(vec![peer(4)]), true)));
    assert_eq!(providers_told(told, 1), vec![peer(4).bytes]);
}

#[test]
fn every_caller_is_answered_once_over_a_run() {
    let mut actor = node(1);
    let inputs = vec![
        Input::Outcome(Outcome::Listening { reply: 1, result: Ok(()) }),
        Input::Outcome(started(10, QueryKind::StartProviding, "a", 2)),
        Input::Outcome(started(11, QueryKind::GetProviders, "a", 3)),
        Input::Outcome(Outcome::RequestSent { request: 20, reply: 4 }),
        Input::Swarm(progressed(11, QueryResult::Providers(vec![peer(2)]), false)),
        Input::Swarm(progressed(10, QueryResult::Finished, true)),
        Input::Swarm(progressed(10, QueryResult::Finished, true)),
        Input::Swarm(SwarmEvent::Response { request_id: 20, response: "x".to_string() }),
        Input::Swarm(progressed(11, QueryResult::Finished, true)),
        Input::Swarm(SwarmEvent::Response { request_id: 20, response: "y".to_string() }),
        Input::Swarm(progressed(11, QueryResult::Failed(QueryError::Timeout), true)),
    ];
    let mut answered = vec![0u32; 5];
    for input in inputs {
        for action in actor.step(input) {
            match action {
                Action::Signal { reply, .. } | Action::Abandon { reply } => {
                    answered[reply as usize] += 1
                }
                _ => {}
            }
        }
    }
    assert_eq!(answered, vec![0, 1, 1, 1, 1]);
    assert_eq!(actor.outstanding(), (0, 0));
}
