use pitaya_rpc::client::{
    finish_call, finish_kick, push_result, reply_of, Config, NatsClient, TransportOutcome,
};
use pitaya_rpc::error::Error;
use pitaya_rpc::message::{KickMsg, Msg, Push, Request};
use pitaya_rpc::topic::{Server, ServerId, ServerKind};
use std::collections::HashMap;

fn server(id: &str, kind: &str) -> Server {
    Server {
        id: ServerId(id.to_owned()),
        kind: ServerKind(kind.to_owned()),
        hostname: "hostname".to_owned(),
        frontend: false,
        metadata: HashMap::new(),
    }
}

fn request() -> Request {
    Request {
        rpc_type: 1,
        msg: Some(Msg {
            id: 0,
            route: String::new(),
            data: vec![],
            reply: String::new(),
            msg_type: 0,
        }),
        frontend_id: String::new(),
        metadata: Vec::new(),
    }
}

fn push(uid: &str) -> Push {
    Push { route: "chat.msg".to_owned(), uid: uid.to_owned(), data: vec![1, 2] }
}

#[test]
fn nats_rpc_client_can_be_created() {
    let _client = NatsClient::new(Config {
        address: "https://sfdjsdoifj".to_owned(),
        ..Config::default()
    });
}

#[test]
fn config_defaults() {
    let c = Config::default();
    assert_eq!(c.address, "http://localhost:4222");
    assert_eq!(c.connection_timeout_ms, 10_000);
    assert_eq!(c.request_timeout_ms, 10_000);
    assert_eq!(c.max_reconnection_attempts, 5);
    assert_eq!(c.max_pending_messages, 100);
}

#[test]
fn new_client_keeps_config_and_is_closed() {
    let client = NatsClient::new(Config { request_timeout_ms: 300, ..Config::default() });
    assert!(!client.is_connected());
    assert!(client.connection().is_none());
    assert_eq!(client.config().request_timeout_ms, 300);
}

#[test]
fn call_without_connection_fails() {
    let client = NatsClient::new(Config::default());
    let r = client.prepare_call(&server("my_id", "metagame"), &request());
    assert!(matches!(r, Err(Error::ConnectionNotOpen)));
}

#[test]
fn kick_with_empty_user_fails_first() {
    let client = NatsClient::new(Config::default());
    let msg = KickMsg { user_id: String::new() };
    let r = client.prepare_kick(&ServerKind(String::new()), &msg);
    assert!(matches!(r, Err(Error::InvalidUserId)));
    let r = client.prepare_kick(&ServerKind("room".to_owned()), &msg);
    assert!(matches!(r, Err(Error::InvalidUserId)));
}

#[test]
fn kick_with_empty_kind_fails() {
    let client = NatsClient::new(Config::default());
    let msg = KickMsg { user_id: "u1".to_owned() };
    let r = client.prepare_kick(&ServerKind(String::new()), &msg);
    assert!(matches!(r, Err(Error::InvalidServerKind)));
}

#[test]
fn kick_without_connection_fails() {
    let client = NatsClient::new(Config::default());
    let msg = KickMsg { user_id: "u1".to_owned() };
    let r = client.prepare_kick(&ServerKind("room".to_owned()), &msg);
    assert!(matches!(r, Err(Error::ConnectionNotOpen)));
}

#[test]
fn push_with_empty_ids_fails() {
    let client = NatsClient::new(Config::default());
    let r = client.prepare_push(&ServerKind(String::new()), &push(""));
    assert!(matches!(r, Err(Error::InvalidUserId)));
    let r = client.prepare_push(&ServerKind("room".to_owned()), &push(""));
    assert!(matches!(r, Err(Error::InvalidUserId)));
    let r = client.prepare_push(&ServerKind(String::new()), &push("u1"));
    assert!(matches!(r, Err(Error::InvalidServerKind)));
}

#[test]
fn push_without_connection_fails() {
    let client = NatsClient::new(Config::default());
    let r = client.prepare_push(&ServerKind("room".to_owned()), &push("u1"));
    assert!(matches!(r, Err(Error::ConnectionNotOpen)));
}

#[test]
fn close_twice_leaves_client_closed() {
    let mut client = NatsClient::new(Config::default());
    assert!(client.close().is_none());
    assert!(client.close().is_none());
    assert!(!client.is_connected());
}

#[test]
fn failed_connect_leaves_client_closed() {
    let mut client = NatsClient::new(Config::default());
    let r = client.on_connect(Err("unreachable".to_owned()));
    match r {
        Err(Error::TransportConnectError(m)) => assert_eq!(m, "unreachable"),
        _ => panic!("unexpected result"),
    }
    assert!(!client.is_connected());
    let r = client.prepare_call(&server("my_id", "metagame"), &request());
    assert!(matches!(r, Err(Error::ConnectionNotOpen)));
}

#[test]
fn reply_bytes_are_handed_back() {
    let r = reply_of(TransportOutcome::Reply(b"success".to_vec()));
    match r {
        Ok(b) => assert_eq!(b, b"success".to_vec()),
        Err(_) => panic!("unexpected error"),
    }
}

#[test]
fn timed_out_exchange_is_a_timeout() {
    assert!(matches!(reply_of(TransportOutcome::TimedOut), Err(Error::Timeout)));
    assert!(matches!(push_result(TransportOutcome::TimedOut), Err(Error::Timeout)));
}

#[test]
fn broker_and_worker_failures_stay_apart() {
    match reply_of(TransportOutcome::Failed("no responders".to_owned())) {
        Err(Error::TransportError(m)) => assert_eq!(m, "no responders"),
        _ => panic!("unexpected result"),
    }
    match reply_of(TransportOutcome::WorkerFailed("panicked".to_owned())) {
        Err(Error::BridgeFailure(m)) => assert_eq!(m, "panicked"),
        _ => panic!("unexpected result"),
    }
    match push_result(TransportOutcome::Failed("down".to_owned())) {
        Err(Error::TransportError(m)) => assert_eq!(m, "down"),
        _ => panic!("unexpected result"),
    }
}

#[test]
fn push_ignores_reply_contents() {
    assert!(push_result(TransportOutcome::Reply(vec![0xff, 0x00])).is_ok());
    assert!(push_result(TransportOutcome::Reply(vec![])).is_ok());
}

#[test]
fn call_reply_is_decoded() {
    let mut reply = vec![0x0a, 7];
    reply.extend_from_slice(b"success");
    match finish_call(TransportOutcome::Reply(reply)) {
        Ok(r) => {
            assert!(r.error.is_none());
            assert!(String::from_utf8_lossy(&r.data).contains("success"));
        }
        Err(_) => panic!("unexpected error"),
    }
}

#[test]
fn call_reply_that_does_not_parse_is_a_decode_error() {
    let r = finish_call(TransportOutcome::Reply(vec![0x0a, 5, b'a']));
    assert!(matches!(r, Err(Error::DecodeError(_))));
}

#[test]
fn call_timeout_is_reported() {
    assert!(matches!(finish_call(TransportOutcome::TimedOut), Err(Error::Timeout)));
    assert!(matches!(finish_kick(TransportOutcome::TimedOut), Err(Error::Timeout)));
}

#[test]
fn kick_answer_is_decoded() {
    match finish_kick(TransportOutcome::Reply(vec![0x08, 0x01])) {
        Ok(a) => assert!(a.kicked),
        Err(_) => panic!("unexpected error"),
    }
    match finish_kick(TransportOutcome::Reply(vec![])) {
        Ok(a) => assert!(!a.kicked),
        Err(_) => panic!("unexpected error"),
    }
    let r = finish_kick(TransportOutcome::Reply(vec![0x0a, 0x00]));
    assert!(matches!(r, Err(Error::DecodeError(_))));
}
