use pitaya_rpc::topic::{
    topic_for_server, user_kick_topic, user_messages_topic, Server, ServerId, ServerKind,
};
use std::collections::HashMap;

fn room() -> ServerKind {
    ServerKind("room".to_owned())
}

#[test]
fn server_topic_is_built_from_kind_and_id() {
    let s = Server {
        id: ServerId("my_id".to_owned()),
        kind: ServerKind("metagame".to_owned()),
        hostname: "hostname".to_owned(),
        frontend: false,
        metadata: HashMap::new(),
    };
    assert_eq!(topic_for_server(&s), "pitaya/servers/metagame/my_id");
}

#[test]
fn kick_topic_is_built_from_kind_and_user() {
    assert_eq!(user_kick_topic("u1", &room()), "pitaya/room/user/u1/kick");
}

#[test]
fn push_topic_is_built_from_kind_and_user() {
    assert_eq!(user_messages_topic("u1", &room()), "pitaya/room/user/u1/push");
}

#[test]
fn topics_are_deterministic_and_distinct() {
    let kind = ServerKind("servers".to_owned());
    let s = Server {
        id: ServerId("user/u1/push".to_owned()),
        kind: ServerKind("servers".to_owned()),
        hostname: String::new(),
        frontend: true,
        metadata: HashMap::new(),
    };
    let push = user_messages_topic("u1", &kind);
    let kick = user_kick_topic("u1", &kind);
    assert_eq!(push, user_messages_topic("u1", &kind));
    assert_eq!(kick, user_kick_topic("u1", &kind));
    assert_ne!(push, kick);
    assert_ne!(push, topic_for_server(&s));
    assert_ne!(kick, topic_for_server(&s));
}
