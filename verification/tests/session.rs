use base64::prelude::BASE64_STANDARD;
use base64::Engine;
use bevygap::session_request::accept_request;
use bevygap::session_request::decode_error_reply;
use bevygap::session_request::decode_request;
use bevygap::session_request::error_reply;
use bevygap::session_request::reply;
use bevygap::session_request::service_names;
use bevygap::session_request::DecodeError;
use bevygap::session_request::Reply;
use bevygap::session_request::ServiceError;
use bevygap::session_request::SESSION_HANDLERS;
use bevygap::session_service::perform;
use bevygap::session_service::Deployment;
use bevygap::session_service::PostRejection;
use bevygap::session_service::Responder;
use bevygap::session_service::ResponderAction;
use bevygap::session_service::ResponderConfig;
use bevygap::session_service::ResponderEvent;
use bevygap::session_service::Session;
use bevygap::session_service::SessionError;
use bevygap::session_service::SessionResponse;
use bevygap::token::encode_token;
use bevygap::token::issue_token;
use bevygap::token::TokenError;

type State = Responder;
type Action = ResponderAction<String>;

fn config() -> ResponderConfig {
    ResponderConfig {
        app_name: "app".to_string(),
        session_webhook_url: Some("https://hook".to_string()),
        client_ip: "9.9.9.9".to_string(),
        protocol_id: 17,
        private_key: [3u8; 32],
        cert_digest_timeout: 2_500_000_000,
    }
}

fn session(ready: bool, ports: Option<Vec<Option<i32>>>) -> Session {
    Session {
        session_id: "s-1".to_string(),
        ready,
        deployment: Some(Deployment {
            request_id: "req-1".to_string(),
            public_ip: "10.0.0.1".to_string(),
            ports,
        }),
    }
}

fn ready_session() -> Session {
    session(true, Some(vec![Some(30090), None]))
}

fn run(events: Vec<ResponderEvent>) -> (State, Vec<Action>) {
    let config = config();
    let (mut state, first) = Responder::begin(&config);
    let mut actions = vec![first];
    for event in events {
        assert!(state.can_advance());
        let (next, action) = state.advance(&config, event);
        state = next;
        actions.push(action);
    }
    (state, actions)
}

fn to_address() -> Vec<ResponderEvent> {
    vec![
        ResponderEvent::Posted(Ok("created".to_string())),
        ResponderEvent::Slept,
        ResponderEvent::Fetched(Ok(ready_session())),
        ResponderEvent::Recorded(Ok(())),
        ResponderEvent::ClientId(77),
        ResponderEvent::Address(Ok("10.0.0.1:30090".to_string())),
    ]
}

fn last(events: Vec<ResponderEvent>) -> Action {
    run(events).1.pop().unwrap()
}

fn io(message: &str) -> Action {
    ResponderAction::Finish(Err(SessionError::Io(message.to_string())))
}

fn with(mut events: Vec<ResponderEvent>, more: Vec<ResponderEvent>) -> Vec<ResponderEvent> {
    events.extend(more);
    events
}

#[test]
fn requests_are_objects_with_a_client_ip() {
    let request = decode_request(br#" {"client_ip":"1.2.3.4","room":{"mode":"auto"}} "#).unwrap();
    assert_eq!(request.client_ip, "1.2.3.4");
    assert_eq!(request.obj.len(), 1);
    assert!(request.obj.contains_key("room"));
    assert_eq!(
        decode_request(br#"{"room":1}"#).unwrap_err(),
        DecodeError::MissingClientIp
    );
    assert_eq!(
        decode_request(br#"{"client_ip":1}"#).unwrap_err(),
        DecodeError::ClientIpNotAString
    );
    assert_eq!(
        decode_request(br#"{"client_ip":"a","client_ip":"b"}"#).unwrap().client_ip,
        "b"
    );
    for bad in [&b"[]"[..], b"", b"null", b"{", b"{} x", b"\xff"] {
        match decode_request(bad) {
            Err(DecodeError::NotAnObject(message)) => assert!(!message.is_empty()),
            other => panic!("{other:?}"),
        }
    }
    assert_eq!(
        DecodeError::<String>::MissingClientIp.message(),
        "Missing client_ip field"
    );
    assert_eq!(
        DecodeError::<String>::ClientIpNotAString.message(),
        "client_ip is not a string"
    );
    assert_eq!(DecodeError::NotAnObject("m".to_string()).message(), "m");
}

#[test]
fn service_goes_by_its_names() {
    let plain = service_names(None);
    assert_eq!(plain.service, "gensession");
    assert_eq!(plain.group, "session");
    assert_eq!(plain.endpoint, "gensession");
    assert_eq!(plain.queue, "session_queue");
    let named = service_names(Some("ns"));
    assert_eq!(named.service, "ns_gensession");
    assert_eq!(named.group, "ns_session");
    assert_eq!(named.endpoint, "ns_gensession");
    assert_eq!(named.queue, "ns_session_queue");
    assert_eq!(SESSION_HANDLERS, 5);
}

#[test]
fn refusals_are_answered_with_their_code_and_message() {
    let replied = |rejection| {
        let refused = SessionError::Response(rejection);
        match last(vec![ResponderEvent::Posted(Err(refused))]) {
            ResponderAction::Finish(Err(error)) => {
                let reply = error_reply(error, "shown");
                (reply.code, reply.status)
            }
            other => panic!("{other:?}"),
        }
    };
    assert_eq!(
        replied(PostRejection::Status400("bad".to_string())),
        (400, "bad".to_string())
    );
    assert_eq!(
        replied(PostRejection::Status401("who".to_string())),
        (401, "who".to_string())
    );
    assert_eq!(
        replied(PostRejection::Status409("full".to_string())),
        (409, "full".to_string())
    );
    assert_eq!(
        replied(PostRejection::Unrecognised),
        (999, "unknown error".to_string())
    );
    let internal = error_reply(SessionError::Io("x".to_string()), "error in IO: x");
    assert_eq!(internal.code, 500);
    assert_eq!(internal.status, "error generating session: error in IO: x");
    let unreachable = error_reply(SessionError::Request("x".to_string()), "error in reqwest: x");
    assert_eq!(unreachable.code, 500);
    let undecodable = accept_request(decode_request(b"[]")).unwrap_err();
    assert_eq!(undecodable, Reply::Error(decode_error_reply()));
    let accepted = accept_request(decode_request(br#"{"client_ip":"1.2.3.4"}"#)).unwrap();
    assert_eq!(accepted.client_ip, "1.2.3.4");
    let undecoded = decode_error_reply();
    assert_eq!(undecoded.code, 400);
    assert_eq!(undecoded.status, "error decoding session request!");
}

#[test]
fn a_ready_session_is_answered() {
    let events = with(
        to_address(),
        vec![
            ResponderEvent::Digest(Ok(Some(b"abc".to_vec()))),
            ResponderEvent::Token(Ok("token".to_string())),
            ResponderEvent::ClientStored(Ok(())),
            ResponderEvent::SessionStored(Ok(())),
        ],
    );
    let (state, actions) = run(events);
    assert!(state.is_finished());
    assert_eq!(
        actions,
        vec![
            ResponderAction::Post {
                app_name: "app".to_string(),
                client_ip: "9.9.9.9".to_string(),
                webhook_url: Some("https://hook".to_string()),
            },
            ResponderAction::Sleep(200),
            ResponderAction::Fetch {
                session_id: "created".to_string()
            },
            ResponderAction::RecordUnclaimed {
                session_id: "s-1".to_string()
            },
            ResponderAction::DrawClientId,
            ResponderAction::ReadAddress {
                public_ip: "10.0.0.1".to_string(),
                port: 30090
            },
            ResponderAction::GetDigest {
                key: "deployment.req-1".to_string()
            },
            ResponderAction::IssueToken {
                address: "10.0.0.1:30090".to_string(),
                client: 77
            },
            ResponderAction::StoreClient {
                client_id: "77".to_string(),
                session_id: "s-1".to_string()
            },
            ResponderAction::StoreSession {
                session_id: "s-1".to_string(),
                client_id: "77".to_string()
            },
            ResponderAction::Finish(Ok(SessionResponse {
                connect_token: "token".to_string(),
                gameserver_ip: "10.0.0.1".to_string(),
                gameserver_port: 30090,
                cert_digest: "abc".to_string(),
            })),
        ]
    );
}

#[test]
fn sessions_are_polled_until_they_are_given_up() {
    let polled = |times: usize| {
        let mut all = vec![
            ResponderEvent::Posted(Ok("created".to_string())),
            ResponderEvent::Slept,
            ResponderEvent::Fetched(Ok(session(false, None))),
            ResponderEvent::Recorded(Ok(())),
        ];
        for _ in 1..times {
            all.push(ResponderEvent::Slept);
            all.push(ResponderEvent::Fetched(Ok(session(false, None))));
        }
        all
    };
    assert_eq!(last(polled(1)), ResponderAction::Sleep(200));
    assert_eq!(last(polled(50)), ResponderAction::Sleep(200));
    assert_eq!(last(polled(51)), io("session not ready timeout on tries"));
    let (_, actions) = run(polled(51));
    let fetches = actions
        .iter()
        .filter(|a| matches!(a, ResponderAction::Fetch { .. }))
        .count();
    let records = actions
        .iter()
        .filter(|a| matches!(a, ResponderAction::RecordUnclaimed { .. }))
        .count();
    assert_eq!(fetches, 51);
    assert_eq!(records, 1);
}

#[test]
fn failures_are_told_apart() {
    let posted = || ResponderEvent::Posted(Ok("created".to_string()));
    let err = || "cause".to_string();
    assert_eq!(
        last(vec![ResponderEvent::Posted(Err(SessionError::Request(err())))]),
        ResponderAction::Finish(Err(SessionError::Request(err())))
    );
    assert_eq!(
        last(vec![posted(), ResponderEvent::Slept, ResponderEvent::Fetched(Err(err()))]),
        io("get session error: cause")
    );
    let fetched = |session| {
        vec![
            posted(),
            ResponderEvent::Slept,
            ResponderEvent::Fetched(Ok(session)),
        ]
    };
    assert_eq!(
        last(with(
            fetched(ready_session()),
            vec![ResponderEvent::Recorded(Err(err()))]
        )),
        io("Failed to put session_id in unclaimed_sessions KV: cause")
    );
    let recorded =
        |session| last(with(fetched(session), vec![ResponderEvent::Recorded(Ok(()))]));
    assert_eq!(
        recorded(Session {
            session_id: "s".to_string(),
            ready: true,
            deployment: None
        }),
        io("deployment not found")
    );
    assert_eq!(recorded(session(true, None)), io("No ports found in deployment!"));
    let no_port = io("No external port found in deployment");
    assert_eq!(recorded(session(true, Some(vec![]))), no_port);
    assert_eq!(recorded(session(true, Some(vec![None, Some(1)]))), no_port);
    for bad in [-1, 65536] {
        assert_eq!(
            recorded(session(true, Some(vec![Some(bad)]))),
            io("Invalid external port")
        );
    }
    for good in [0, 65535] {
        assert_eq!(
            recorded(session(true, Some(vec![Some(good)]))),
            ResponderAction::DrawClientId
        );
    }
    let mut events = to_address();
    events.pop();
    events.push(ResponderEvent::Address(Err(err())));
    assert_eq!(last(events), io("Failed parsing server ip 10.0.0.1: cause"));
    let digest = ResponderEvent::Digest(Ok(Some(vec![0xff])));
    assert_eq!(
        last(with(to_address(), vec![digest])),
        io("Cert digest for key deployment.req-1 is not utf8: invalid utf-8 sequence of 1 bytes from index 0")
    );
    let to_token = || {
        with(
            to_address(),
            vec![ResponderEvent::Digest(Ok(Some(b"abc".to_vec())))],
        )
    };
    assert_eq!(
        last(with(
            to_token(),
            vec![ResponderEvent::Token(Err(TokenError::Generate(err())))]
        )),
        io("Failed to generate token: cause")
    );
    assert_eq!(
        last(with(
            to_token(),
            vec![ResponderEvent::Token(Err(TokenError::Serialize(err())))]
        )),
        io("Failed to serialize token: cause")
    );
    let token = || ResponderEvent::Token(Ok("t".to_string()));
    assert_eq!(
        last(with(
            to_token(),
            vec![token(), ResponderEvent::ClientStored(Err(err()))]
        )),
        io("Failed to put token KV entry: cause")
    );
    assert_eq!(
        last(with(
            to_token(),
            vec![
                token(),
                ResponderEvent::ClientStored(Ok(())),
                ResponderEvent::SessionStored(Err(err()))
            ]
        )),
        io("Failed to put token KV entry: cause")
    );
}

#[test]
fn digest_keys_are_tried_in_order_until_the_time_is_up() {
    let none = || ResponderEvent::Digest(Ok(None));
    let round = || vec![none(), ResponderEvent::Digest(Err("down".to_string())), none(), none()];
    let (_, actions) = run(with(to_address(), round()));
    let keys: Vec<&Action> = actions[6..10].iter().collect();
    for (action, key) in keys.iter().zip([
        "deployment.req-1",
        "endpoint.10_0_0_1.30090",
        "ip.10_0_0_1",
        "10.0.0.1",
    ]) {
        assert_eq!(
            **action,
            ResponderAction::GetDigest {
                key: key.to_string()
            }
        );
    }
    assert_eq!(actions[10], ResponderAction::ReadClock);
    let early = with(
        with(to_address(), round()),
        vec![ResponderEvent::Elapsed(2_499_999_999)],
    );
    assert_eq!(last(early), ResponderAction::SleepDigestInterval);
    let second = || {
        with(
            with(to_address(), round()),
            vec![ResponderEvent::Elapsed(5), ResponderEvent::Slept],
        )
    };
    assert_eq!(
        last(second()),
        ResponderAction::GetDigest {
            key: "deployment.req-1".to_string()
        }
    );
    let late = with(
        with(second(), vec![none(), none(), none(), none()]),
        vec![ResponderEvent::Elapsed(2_500_000_000)],
    );
    assert_eq!(
        last(late),
        io("Failed to get cert digest from KV for keys: deployment.req-1,endpoint.10_0_0_1.30090,ip.10_0_0_1,10.0.0.1 after 2 attempts over 2.5s; last NATS error=down")
    );
    let quiet = with(
        with(to_address(), vec![none(), none(), none(), none()]),
        vec![ResponderEvent::Elapsed(3_000_000_000)],
    );
    assert_eq!(
        last(quiet),
        io("Failed to get cert digest from KV for keys: deployment.req-1,endpoint.10_0_0_1.30090,ip.10_0_0_1,10.0.0.1 after 1 attempts over 3s")
    );
    let third_key = with(
        to_address(),
        vec![none(), none(), ResponderEvent::Digest(Ok(Some(b"abc".to_vec())))],
    );
    assert!(matches!(last(third_key), ResponderAction::IssueToken { .. }));
}

#[test]
fn a_request_is_answered_once() {
    let events = vec![
        ResponderEvent::Posted(Err(SessionError::Io("x".to_string()))),
        ResponderEvent::Slept,
        ResponderEvent::Posted(Ok("y".to_string())),
    ];
    let (_, actions) = run(events);
    assert_eq!(actions[1], io("x"));
    assert_eq!(actions[2..], [ResponderAction::Wait, ResponderAction::Wait]);
    assert_eq!(last(vec![ResponderEvent::Slept]), ResponderAction::Wait);
}

#[test]
fn tokens_are_base64_of_a_connect_token() {
    let token = issue_token("10.0.0.1:30090", 17, 77, [3u8; 32]).unwrap();
    let bytes = BASE64_STANDARD.decode(&token).unwrap();
    assert_eq!(bytes.len(), 2048);
    assert_eq!(&bytes[..13], b"NETCODE 1.02\0");
    assert_eq!(bytes[13..21], 17u64.to_be_bytes());
    assert_ne!(issue_token("10.0.0.1:30090", 17, 77, [3u8; 32]).unwrap(), token);
    assert!(issue_token("[2001:db8::1]:1", 17, 77, [3u8; 32]).is_ok());
    match issue_token("nowhere", 17, 77, [3u8; 32]) {
        Err(TokenError::Generate(cause)) => assert!(!cause.is_empty()),
        other => panic!("{other:?}"),
    }
}

#[test]
fn client_ids_and_tokens_need_no_service() {
    let config = config();
    let mut ids = Vec::new();
    for _ in 0..4 {
        match perform(&config, &ResponderAction::DrawClientId) {
            Some(ResponderEvent::ClientId(id)) => ids.push(id),
            other => panic!("{other:?}"),
        }
    }
    assert!(ids.iter().any(|id| *id != ids[0]));
    let ask = ResponderAction::IssueToken {
        address: "10.0.0.1:1".to_string(),
        client: 5,
    };
    match perform(&config, &ask) {
        Some(ResponderEvent::Token(Ok(token))) => {
            let bytes = BASE64_STANDARD.decode(&token).unwrap();
            assert_eq!(bytes[13..21], config.protocol_id.to_be_bytes());
        }
        other => panic!("{other:?}"),
    }
    assert!(perform(&config, &ResponderAction::Sleep(1)).is_none());
    assert!(perform(&config, &ResponderAction::Wait).is_none());
}

#[test]
fn answers_are_shown_without_their_token() {
    let response = SessionResponse {
        connect_token: "t\u{e9}".to_string(),
        gameserver_ip: "i".to_string(),
        gameserver_port: 1,
        cert_digest: "d".to_string(),
    };
    assert_eq!(
        response.summary(),
        "SessionResponse { connect_token: [3 bytes] }"
    );
}

#[test]
fn outcomes_are_answered() {
    assert_eq!(
        reply(Ok(Some("{}".to_string())), ""),
        Reply::Payload("{}".to_string())
    );
    assert_eq!(reply(Ok(None), ""), Reply::Silence);
    assert_eq!(
        reply(Err(SessionError::Io("x".to_string())), "error in IO: x"),
        Reply::Error(ServiceError {
            code: 500,
            status: "error generating session: error in IO: x".to_string()
        })
    );
}

#[test]
fn tokens_are_encoded_and_errors_passed_on() {
    assert_eq!(encode_token(Ok(Vec::new())), Ok(String::new()));
    assert_eq!(encode_token(Ok(b"token".to_vec())), Ok("dG9rZW4=".to_string()));
    assert_eq!(encode_token(Ok(vec![0xfb, 0xff])), Ok("+/8=".to_string()));
    for error in [
        || TokenError::Generate("clock".to_string()),
        || TokenError::Serialize("full".to_string()),
    ] {
        assert_eq!(encode_token(Err(error())), Err(error()));
    }
}

#[test]
fn late_sessions_and_digests_are_served_and_nothing_is_asked_twice() {
    let mut events = vec![
        ResponderEvent::Posted(Ok("created".to_string())),
        ResponderEvent::Slept,
        ResponderEvent::Fetched(Ok(session(false, None))),
        ResponderEvent::Recorded(Ok(())),
    ];
    for _ in 0..49 {
        events.push(ResponderEvent::Slept);
        events.push(ResponderEvent::Fetched(Ok(session(false, None))));
    }
    events.push(ResponderEvent::Slept);
    events.push(ResponderEvent::Fetched(Ok(ready_session())));
    events.push(ResponderEvent::ClientId(77));
    events.push(ResponderEvent::Address(Ok("10.0.0.1:30090".to_string())));
    for elapsed in [1, 2_499_999_999] {
        for _ in 0..3 {
            events.push(ResponderEvent::Digest(Ok(None)));
        }
        events.push(ResponderEvent::Digest(Err("down".to_string())));
        events.push(ResponderEvent::Elapsed(elapsed));
        events.push(ResponderEvent::Slept);
    }
    events.push(ResponderEvent::Digest(Err("down".to_string())));
    events.push(ResponderEvent::Digest(Ok(None)));
    events.push(ResponderEvent::Digest(Ok(Some(b"abc".to_vec()))));
    events.push(ResponderEvent::Token(Ok("token".to_string())));
    events.push(ResponderEvent::ClientStored(Ok(())));
    events.push(ResponderEvent::SessionStored(Ok(())));
    let (_, actions) = run(events);
    assert_eq!(
        *actions.last().unwrap(),
        ResponderAction::Finish(Ok(SessionResponse {
            connect_token: "token".to_string(),
            gameserver_ip: "10.0.0.1".to_string(),
            gameserver_port: 30090,
            cert_digest: "abc".to_string(),
        }))
    );
    let count = |what: fn(&Action) -> bool| actions.iter().filter(|a| what(a)).count();
    assert_eq!(count(|a| matches!(a, ResponderAction::RecordUnclaimed { .. })), 1);
    assert_eq!(count(|a| matches!(a, ResponderAction::ReadAddress { .. })), 1);
    assert_eq!(count(|a| matches!(a, ResponderAction::IssueToken { .. })), 1);
    assert_eq!(count(|a| matches!(a, ResponderAction::StoreClient { .. })), 1);
    assert_eq!(count(|a| matches!(a, ResponderAction::StoreSession { .. })), 1);
}

#[test]
fn nothing_is_stored_without_a_token() {
    let events = with(
        to_address(),
        vec![
            ResponderEvent::Digest(Ok(Some(b"abc".to_vec()))),
            ResponderEvent::Token(Err(TokenError::Generate("clock".to_string()))),
            ResponderEvent::Token(Ok("late".to_string())),
        ],
    );
    let (_, actions) = run(events);
    assert!(!actions.iter().any(|action| matches!(
        action,
        ResponderAction::StoreClient { .. } | ResponderAction::StoreSession { .. }
    )));
}
