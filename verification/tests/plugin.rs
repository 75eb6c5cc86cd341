use bevygap::admission::client_id_of;
use bevygap::admission::BevygapConnectionRequestHandler;
use bevygap::admission::DeniedReason;
use bevygap::admission::Operation;
use bevygap::admission::Peer;
use bevygap::admission::WatchNews;
use bevygap::admission::WatchStep;
use bevygap::admission::RETRY_DELAY_SECS;
use bevygap::edgegap_context::ArbitriumContext;
use bevygap::plugin::ca_contents_arg;
use bevygap::plugin::deployment_metrics_update;
use bevygap::plugin::BevygapDeploymentMetrics;
use bevygap::plugin::BevygapReadiness;
use bevygap::plugin::Connections;
use bevygap::plugin::NatsAction;
use bevygap::plugin::NatsEvent;
use bevygap::plugin::Parts;
use bevygap::plugin::ReadinessStep;
use bevygap::protocol::DeploymentRoomMetrics;
use std::collections::HashSet;

fn args(all: &[&str]) -> Vec<String> {
    all.iter().map(|s| s.to_string()).collect()
}

fn context() -> ArbitriumContext {
    let json = r#"{"request_id":"req-1","public_ip":"10.0.0.1","fqdn":"f",
        "ports":{"game":{"external":30090}}}"#;
    ArbitriumContext::from_response(serde_json::from_str(json).unwrap()).unwrap()
}

#[test]
fn ca_contents_stand_behind_the_first_flag() {
    assert_eq!(ca_contents_arg(&args(&[])), None);
    assert_eq!(ca_contents_arg(&args(&["server"])), None);
    assert_eq!(ca_contents_arg(&args(&["server", "--ca_contents"])), None);
    assert_eq!(
        ca_contents_arg(&args(&["server", "x", "--ca_contents", "PEM", "--ca_contents", "2"])),
        Some("PEM".to_string())
    );
    assert_eq!(
        ca_contents_arg(&args(&["s", "--ca_contents", "--ca_contents", "x"])),
        Some("--ca_contents".to_string())
    );
    assert_eq!(ca_contents_arg(&args(&["server", "--ca_contents=PEM", "y"])), None);
}

#[test]
fn clients_are_admitted_while_they_are_mapped() {
    let mut handler = BevygapConnectionRequestHandler::new(HashSet::new());
    let denied = Some(DeniedReason::InvalidToken);
    assert_eq!(handler.handle_request(Peer::Netcode(7)), denied);
    assert!(handler.apply("7", Operation::Put));
    assert_eq!(handler.handle_request(Peer::Netcode(7)), None);
    assert_eq!(handler.handle_request(Peer::Netcode(8)), denied);
    assert_eq!(handler.handle_request(Peer::Other), denied);
    assert!(!handler.apply("x", Operation::Delete));
    assert!(!handler.apply("-7", Operation::Delete));
    assert!(handler.apply("8", Operation::Delete));
    assert_eq!(handler.handle_request(Peer::Netcode(7)), None);
    assert!(handler.apply("7", Operation::Delete));
    assert_eq!(handler.handle_request(Peer::Netcode(7)), denied);
    assert!(handler.apply("18446744073709551615", Operation::Put));
    assert_eq!(handler.handle_request(Peer::Netcode(u64::MAX)), None);
    assert!(handler.apply("18446744073709551615", Operation::Purge));
    assert_eq!(handler.handle_request(Peer::Netcode(u64::MAX)), denied);
    assert_eq!(client_id_of("7"), Some(7));
    assert_eq!(client_id_of("7 "), None);
    let mut from_start = BevygapConnectionRequestHandler::new(HashSet::from([1, 2]));
    assert!(from_start.apply("2", Operation::Delete));
    assert!(from_start.apply("4", Operation::Put));
    assert_eq!(from_start.handle_request(Peer::Netcode(1)), None);
    assert_eq!(from_start.handle_request(Peer::Netcode(2)), denied);
    assert_eq!(from_start.handle_request(Peer::Netcode(4)), None);
    let known = BevygapConnectionRequestHandler::new(HashSet::from([3]));
    assert_eq!(known.handle_request(Peer::Netcode(3)), None);
    let decide = BevygapConnectionRequestHandler::decide;
    assert_eq!(decide(Some(&known), Peer::Netcode(3)), None);
    assert_eq!(decide(Some(&known), Peer::Other), denied);
    assert_eq!(decide(None, Peer::Netcode(3)), denied);
}

fn parts<'a>(context: Option<&'a ArbitriumContext>, digest: Option<&'a str>, nats: bool) -> Parts<'a> {
    Parts { context, digest, has_nats: nats, has_sender: true }
}

#[test]
fn readiness_lists_what_is_missing_and_is_published_once() {
    let context = context();
    assert!(context.identifies_deployment());
    let mut readiness = BevygapReadiness::new();
    let step = readiness.publish_readiness(Parts {
        context: None,
        digest: None,
        has_nats: false,
        has_sender: false,
    });
    match step {
        ReadinessStep::Waiting { missing, changed } => {
            assert_eq!(
                missing,
                "Edgegap context, WebTransport certificate digest, NATS connection, NATS sender"
            );
            assert!(changed);
        }
        other => panic!("{other:?}"),
    }
    for expected in [true, false] {
        match readiness.publish_readiness(parts(Some(&context), None, true)) {
            ReadinessStep::Waiting { missing, changed } => {
                assert_eq!(missing, "WebTransport certificate digest");
                assert_eq!(changed, expected);
            }
            other => panic!("{other:?}"),
        }
    }
    assert!(!readiness.is_published());
    match readiness.publish_readiness(parts(Some(&context), Some("digest"), true)) {
        ReadinessStep::Publish { keys, digest, context } => {
            assert_eq!(
                keys,
                vec![
                    "deployment.req-1",
                    "endpoint.10_0_0_1.30090",
                    "ip.10_0_0_1",
                    "10.0.0.1"
                ]
            );
            assert_eq!(digest, "digest");
            assert_eq!(context.request_id(), "req-1");
        }
        other => panic!("{other:?}"),
    }
    assert!(readiness.is_published());
    assert!(matches!(
        readiness.publish_readiness(parts(Some(&context), Some("digest"), true)),
        ReadinessStep::Done
    ));
    assert!(matches!(
        readiness.publish_readiness(parts(None, None, false)),
        ReadinessStep::Done
    ));
}

#[test]
fn contexts_without_address_identify_no_deployment() {
    let of = |json: &str| {
        ArbitriumContext::from_response(serde_json::from_str(json).unwrap()).unwrap()
    };
    assert!(!of("{}").identifies_deployment());
    assert!(!of(r#"{"request_id":"r"}"#).identifies_deployment());
    assert!(!of(r#"{"request_id":1,"public_ip":"p"}"#).identifies_deployment());
    assert!(of(r#"{"request_id":"r","public_ip":"p"}"#).identifies_deployment());
}

fn game_metrics() -> BevygapDeploymentMetrics {
    BevygapDeploymentMetrics {
        total_players: 3,
        max_players: 8,
        max_rooms: 2,
        rooms: vec![DeploymentRoomMetrics {
            key: "code:A".to_string(),
            private: true,
            players: 3,
            max_players: 4,
        }],
    }
}

#[test]
fn metrics_are_sent_once_there_is_a_context_and_a_sender() {
    let context = context();
    assert_eq!(deployment_metrics_update(None, true, &game_metrics()), None);
    assert_eq!(
        deployment_metrics_update(Some(&context), false, &game_metrics()),
        None
    );
    let sent = deployment_metrics_update(Some(&context), true, &game_metrics()).unwrap();
    assert_eq!(sent.request_id, "req-1");
    assert_eq!(sent.public_ip, "10.0.0.1");
    assert_eq!(sent.external_port, Some(30090));
    assert_eq!(sent.total_players, 3);
    assert_eq!(sent.max_players, 8);
    assert_eq!(sent.max_rooms, 2);
    assert_eq!(sent.rooms, game_metrics().rooms);
    let copy = game_metrics().clone();
    assert_eq!(copy.total_players, 3);
    assert_eq!(copy.max_players, 8);
    assert_eq!(copy.max_rooms, 2);
    assert_eq!(copy.rooms, game_metrics().rooms);
}

#[test]
fn connections_are_stored_and_deleted() {
    let mut connections = Connections::new();
    match connections.tell(None, NatsEvent::ClientConnected(42)) {
        NatsAction::FindSession { key } => assert_eq!(key, "42"),
        other => panic!("{other:?}"),
    }
    match connections.session_found(42, Some(b"session-1".to_vec())) {
        NatsAction::PutConnection { session_id, client_id } => {
            assert_eq!(session_id, "session-1");
            assert_eq!(client_id, "42");
        }
        other => panic!("{other:?}"),
    }
    let missed = connections.session_found(43, None);
    assert!(matches!(missed, NatsAction::NoSession));
    assert!(missed.needs_flush(false));
    let bad = connections.session_found(44, Some(vec![0xff]));
    assert!(matches!(bad, NatsAction::BadSession));
    assert!(!bad.needs_flush(true));
    for unknown in [43, 44] {
        assert!(matches!(
            connections.tell(None, NatsEvent::ClientDisconnected(unknown)),
            NatsAction::NotConnected
        ));
    }
    match connections.tell(None, NatsEvent::ClientDisconnected(42)) {
        NatsAction::DeleteConnection { session_id } => assert_eq!(session_id, "session-1"),
        other => panic!("{other:?}"),
    }
    let again = connections.tell(None, NatsEvent::ClientDisconnected(42));
    assert!(matches!(again, NatsAction::NotConnected));
    assert!(again.needs_flush(false));
}

#[test]
fn contexts_digests_and_metrics_are_told() {
    let mut connections = Connections::new();
    match connections.tell(Some("ns"), NatsEvent::ArbitriumContext(context())) {
        NatsAction::PublishContext { subject, payload } => {
            assert_eq!(subject, "ns.gameserver.contexts");
            assert_eq!(payload, context().to_bytes());
            assert!(String::from_utf8(payload).unwrap().starts_with("{\"fqdn\":\"f\","));
        }
        other => panic!("{other:?}"),
    }
    match connections.tell(None, NatsEvent::CertDigest(args(&["a", "b"]), "d".to_string())) {
        NatsAction::PutDigest { keys, digest } => {
            assert_eq!(keys, args(&["a", "b"]));
            assert_eq!(digest, "d");
        }
        other => panic!("{other:?}"),
    }
    let metrics = deployment_metrics_update(Some(&context()), true, &game_metrics()).unwrap();
    let put = connections.tell(None, NatsEvent::DeploymentMetrics(metrics.clone()));
    assert!(put.needs_flush(true));
    assert!(!put.needs_flush(false));
    match put {
        NatsAction::PutMetrics { key, metrics: told } => {
            assert_eq!(key, "deployment.req-1");
            assert_eq!(told, metrics);
        }
        other => panic!("{other:?}"),
    }
}

#[test]
fn watch_goes_on_or_starts_anew() {
    let entry = |key: &str, operation| WatchNews::Entry {
        key: key.to_string(),
        operation,
    };
    let mut handler = BevygapConnectionRequestHandler::new(HashSet::new());
    assert_eq!(handler.follow(&WatchNews::Refused), WatchStep::Restart);
    assert_eq!(handler.follow(&WatchNews::Opened), WatchStep::Read);
    assert_eq!(handler.follow(&entry("7", Operation::Put)), WatchStep::Read);
    assert_eq!(handler.follow(&WatchNews::Failed), WatchStep::Read);
    assert_eq!(handler.follow(&entry("x", Operation::Put)), WatchStep::Read);
    assert_eq!(handler.follow(&WatchNews::Ended), WatchStep::Restart);
    assert_eq!(handler.handle_request(Peer::Netcode(7)), None);
    assert_eq!(handler.follow(&entry("7", Operation::Purge)), WatchStep::Read);
    assert!(handler.handle_request(Peer::Netcode(7)).is_some());
    let blocked = BevygapConnectionRequestHandler::follow_unwritable;
    assert_eq!(blocked(&entry("7", Operation::Put)), WatchStep::Restart);
    assert_eq!(blocked(&entry("x", Operation::Put)), WatchStep::Read);
    assert_eq!(blocked(&WatchNews::Failed), WatchStep::Read);
    assert_eq!(blocked(&WatchNews::Opened), WatchStep::Read);
    assert_eq!(blocked(&WatchNews::Refused), WatchStep::Restart);
    assert_eq!(blocked(&WatchNews::Ended), WatchStep::Restart);
    assert_eq!(RETRY_DELAY_SECS, 1);
}
