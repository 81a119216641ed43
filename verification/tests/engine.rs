//! Connection state machine tests: the HELLO handshake, the
//! authentication gate, heartbeating, the INFO sub-protocol, and the
//! end-to-end scenario.

use hmac::Mac;
use lvsp::connection::{channel_req_with_token, vst_create_with_session};
use lvsp::{
    encode_message, Config, ConnState, Connection, ErrorCode, InfoData, InfoType, MessageData,
    OpCode, ProtoError, SessionStore, SocketMessage, CHANNEL_REQ, IDENTIFY, INFO, VST_CREATE,
};

fn engine_config(secret: &str, heartbeat_interval: u64) -> Config {
    Config { secret: String::from(secret), heartbeat_interval, health: 1000 }
}

fn engine_token(secret: &str, nonce: &str) -> String {
    let mut mac = hmac::Hmac::<sha2::Sha256>::new_from_slice(secret.as_bytes())
        .expect("HMAC accepts keys of any length");
    mac.update(nonce.as_bytes());
    hex::encode(mac.finalize().into_bytes())
}

fn hello_nonce(hello: &SocketMessage) -> String {
    match &hello.d {
        MessageData::HELLO { nonce, .. } => nonce.clone(),
        other => panic!("not a HELLO payload: {:?}", other),
    }
}

fn identify_frame(secret: &str, nonce: &str) -> String {
    encode_message(&SocketMessage {
        op: OpCode::IDENTIFY,
        d: MessageData::IDENTIFY(IDENTIFY { token: engine_token(secret, nonce) }),
    })
}

fn identified_connection(cfg: &Config, store: &mut SessionStore) -> Connection {
    let (mut conn, hello) = Connection::accept(String::from("peer:1"), cfg, store);
    let nonce = hello_nonce(&hello);
    let reply = conn.handle_frame(cfg, store, identify_frame(cfg.secret.as_str(), &nonce).as_str());
    match reply {
        Ok(SocketMessage { op: OpCode::READY, .. }) => {},
        other => panic!("IDENTIFY did not yield READY: {:?}", other),
    }
    assert_eq!(conn.state, ConnState::Identified);
    conn
}

#[test]
fn hello_is_first_message_with_configured_interval() {
    for h in [0u64, 1, 1000] {
        let cfg = engine_config("hunter2", h);
        let mut store = SessionStore::new();
        let (conn, hello) = Connection::accept(String::from("peer:1"), &cfg, &mut store);
        assert_eq!(conn.state, ConnState::AwaitingIdentify);
        assert_eq!(hello.op, OpCode::HELLO);
        match hello.d {
            MessageData::HELLO { heartbeat_interval, nonce } => {
                assert_eq!(heartbeat_interval, h);
                assert_eq!(nonce.chars().count(), 10);
                assert!(nonce.chars().all(|c| c.is_ascii_alphanumeric()));
            },
            other => panic!("not a HELLO payload: {:?}", other),
        }
    }
}

#[test]
fn heartbeat_before_identify_yields_auth() {
    let cfg = engine_config("hunter2", 1);
    let mut store = SessionStore::new();
    let (mut conn, _) = Connection::accept(String::from("peer:1"), &cfg, &mut store);
    let r = conn.handle_frame(&cfg, &mut store, "{\"op\": 4, \"d\": {}}");
    assert_eq!(r, Err(ProtoError::Auth));
    assert_eq!(ProtoError::Auth.code(), ErrorCode::AUTH);
    assert_eq!(ErrorCode::AUTH.number(), 4001);
    assert_eq!(conn.state, ConnState::AwaitingIdentify);
}

#[test]
fn info_before_identify_yields_auth() {
    let cfg = engine_config("hunter2", 1);
    let mut store = SessionStore::new();
    let (mut conn, _) = Connection::accept(String::from("peer:1"), &cfg, &mut store);
    let r = conn.handle_frame(
        &cfg,
        &mut store,
        "{\"op\": 6, \"d\": {\"type\": 0, \"data\": {\"channel_id\": \"123\"}}}",
    );
    assert_eq!(r, Err(ProtoError::Auth));
    assert_eq!(conn.state, ConnState::AwaitingIdentify);
}

#[test]
fn bad_identify_stays_awaiting() {
    let cfg = engine_config("hunter2", 1);
    let mut store = SessionStore::new();
    let (mut conn, _) = Connection::accept(String::from("peer:1"), &cfg, &mut store);
    let r = conn.handle_frame(&cfg, &mut store, "{\"op\": 1, \"d\": {\"token\": \"00ff\"}}");
    assert_eq!(r, Err(ProtoError::Auth));
    assert_eq!(conn.state, ConnState::AwaitingIdentify);
    // A later valid IDENTIFY still succeeds: the connection was not closed.
    let nonce = match store.get("peer:1_nonce") {
        Some(n) => n,
        None => panic!("nonce missing from store"),
    };
    let r2 = conn.handle_frame(&cfg, &mut store, identify_frame("hunter2", &nonce).as_str());
    assert!(matches!(r2, Ok(SocketMessage { op: OpCode::READY, .. })));
    assert_eq!(conn.state, ConnState::Identified);
}

#[test]
fn identify_then_heartbeat_acks() {
    let cfg = engine_config("hunter2", 1);
    let mut store = SessionStore::new();
    let mut conn = identified_connection(&cfg, &mut store);
    let r = conn.handle_frame(&cfg, &mut store, "{\"op\": 4, \"d\": {}}");
    match r {
        Ok(SocketMessage { op: OpCode::HEARTBEAT_ACK, d: MessageData::HEARTBEAT_ACK { health } }) => {
            assert_eq!(health, 1000);
        },
        other => panic!("HEARTBEAT did not yield HEARTBEAT_ACK: {:?}", other),
    }
}

#[test]
fn resume_is_unimplemented_not_fatal() {
    let cfg = engine_config("hunter2", 1);
    let mut store = SessionStore::new();
    let mut conn = identified_connection(&cfg, &mut store);
    let r = conn.handle_frame(&cfg, &mut store, "{\"op\": 2, \"d\": {}}");
    assert_eq!(r, Err(ProtoError::Unimplemented));
    assert_eq!(ProtoError::Unimplemented.code(), ErrorCode::GENERAL);
    assert_eq!(ErrorCode::GENERAL.number(), 4000);
    // The connection still works afterwards.
    let r2 = conn.handle_frame(&cfg, &mut store, "{\"op\": 4, \"d\": {}}");
    assert!(matches!(r2, Ok(SocketMessage { op: OpCode::HEARTBEAT_ACK, .. })));
}

#[test]
fn server_opcode_inbound_is_decode_error() {
    let cfg = engine_config("hunter2", 1);
    let mut store = SessionStore::new();
    let mut conn = identified_connection(&cfg, &mut store);
    let r = conn.handle_frame(
        &cfg,
        &mut store,
        "{\"op\": 0, \"d\": {\"heartbeat_interval\": 1, \"nonce\": \"abcdefghij\"}}",
    );
    assert_eq!(r, Err(ProtoError::Decode));
    assert_eq!(ProtoError::Decode.code(), ErrorCode::DECODE);
    assert_eq!(ErrorCode::DECODE.number(), 4002);
}

#[test]
fn malformed_frame_is_decode_error() {
    let cfg = engine_config("hunter2", 1);
    let mut store = SessionStore::new();
    let mut conn = identified_connection(&cfg, &mut store);
    let r = conn.handle_frame(&cfg, &mut store, "not json");
    assert_eq!(r, Err(ProtoError::Decode));
}

#[test]
fn channel_req_allocates_distinct_tokens() {
    let cfg = engine_config("hunter2", 1);
    let mut store = SessionStore::new();
    let mut conn = identified_connection(&cfg, &mut store);
    let frame = "{\"op\": 6, \"d\": {\"type\": 0, \"data\": {\"channel_id\": \"123\", \"guild_id\": \"g\"}}}";
    let mut tokens: Vec<String> = Vec::new();
    for _ in 0..2 {
        let r = conn.handle_frame(&cfg, &mut store, frame);
        match r {
            Ok(SocketMessage {
                op: OpCode::INFO,
                d: MessageData::INFO(INFO {
                    _type: InfoType::CHANNEL_ASSIGN,
                    data: InfoData::CHANNEL_ASSIGN { channel_id, guild_id, token },
                }),
            }) => {
                assert_eq!(channel_id, "123");
                assert_eq!(guild_id, Some(String::from("g")));
                assert_eq!(token.chars().count(), 64);
                tokens.push(token);
            },
            other => panic!("CHANNEL_REQ did not yield CHANNEL_ASSIGN: {:?}", other),
        }
    }
    assert_ne!(tokens[0], tokens[1]);
    assert!(store.contains("g_123_voice", format!("token_{}", tokens[0]).as_str()));
    assert!(store.contains("g_123_voice", format!("token_{}", tokens[1]).as_str()));
}

#[test]
fn forced_collision_yields_general_and_no_assign() {
    let mut store = SessionStore::new();
    let token = "A".repeat(64);
    let added = store.add_to_set("g_123_voice", format!("token_{}", token).as_str());
    assert_eq!(added, 1);
    let req = CHANNEL_REQ { channel_id: String::from("123"), guild_id: Some(String::from("g")) };
    let r = channel_req_with_token(&req, token, &mut store);
    assert_eq!(r, Err(ProtoError::Conflict));
    assert_eq!(ProtoError::Conflict.code(), ErrorCode::GENERAL);
}

#[test]
fn vst_create_yields_vst_done() {
    let cfg = engine_config("hunter2", 1);
    let mut store = SessionStore::new();
    let mut conn = identified_connection(&cfg, &mut store);
    let frame = "{\"op\": 6, \"d\": {\"type\": 3, \"data\": {\"user_id\": \"u\", \"channel_id\": \"c\", \"guild_id\": \"g\"}}}";
    let r = conn.handle_frame(&cfg, &mut store, frame);
    match r {
        Ok(SocketMessage {
            op: OpCode::INFO,
            d: MessageData::INFO(INFO {
                _type: InfoType::VST_DONE,
                data: InfoData::VST_DONE { user_id, channel_id, guild_id, session_id },
            }),
        }) => {
            assert_eq!(user_id, "u");
            assert_eq!(channel_id, "c");
            assert_eq!(guild_id, Some(String::from("g")));
            assert_eq!(session_id.chars().count(), 32);
            assert!(store.contains("g_c_voice", session_id.as_str()));
        },
        other => panic!("VST_CREATE did not yield VST_DONE: {:?}", other),
    }
}

#[test]
fn vst_create_forced_collision_yields_general() {
    let mut store = SessionStore::new();
    let session = "B".repeat(32);
    assert_eq!(store.add_to_set("g_c_voice", session.as_str()), 1);
    let v = VST_CREATE {
        user_id: String::from("u"),
        channel_id: String::from("c"),
        guild_id: Some(String::from("g")),
    };
    let r = vst_create_with_session(&v, session, &mut store);
    assert_eq!(r, Err(ProtoError::Conflict));
}

#[test]
fn destroy_and_update_info_types_are_unimplemented() {
    let cfg = engine_config("hunter2", 1);
    let mut store = SessionStore::new();
    let mut conn = identified_connection(&cfg, &mut store);
    let frames = [
        "{\"op\": 6, \"d\": {\"type\": 2, \"data\": {\"channel_id\": \"c\", \"guild_id\": \"g\"}}}",
        "{\"op\": 6, \"d\": {\"type\": 5, \"data\": {\"session_id\": \"s\"}}}",
        "{\"op\": 6, \"d\": {\"type\": 6, \"data\": {\"session_id\": \"s\"}}}",
    ];
    for frame in frames {
        let r = conn.handle_frame(&cfg, &mut store, frame);
        assert_eq!(r, Err(ProtoError::Unimplemented));
    }
}

#[test]
fn end_to_end_scenario() {
    let cfg = engine_config("hunter2", 1);
    let mut store = SessionStore::new();
    let (mut conn, hello) = Connection::accept_with_nonce(
        String::from("peer:1"),
        String::from("AbC1234xyz"),
        &cfg,
        &mut store,
    );
    let hello_text = encode_message(&hello);
    let v: serde_json::Value = serde_json::from_str(hello_text.as_str()).expect("valid JSON");
    assert_eq!(v.get("op").and_then(|x| x.as_u64()), Some(0));
    let d = v.get("d").expect("d present");
    assert_eq!(d.get("heartbeat_interval").and_then(|x| x.as_u64()), Some(1));
    assert_eq!(d.get("nonce").and_then(|x| x.as_str()), Some("AbC1234xyz"));

    let ready = conn.handle_frame(&cfg, &mut store, identify_frame("hunter2", "AbC1234xyz").as_str());
    match ready {
        Ok(SocketMessage { op: OpCode::READY, d: MessageData::READY { .. } }) => {},
        other => panic!("IDENTIFY did not yield READY: {:?}", other),
    }

    let reply = conn.handle_frame(
        &cfg,
        &mut store,
        "{\"op\": 6, \"d\": {\"type\": 0, \"data\": {\"channel_id\": \"123\"}}}",
    );
    let reply = reply.expect("CHANNEL_REQ succeeds");
    let reply_text = encode_message(&reply);
    let rv: serde_json::Value = serde_json::from_str(reply_text.as_str()).expect("valid JSON");
    assert_eq!(rv.get("op").and_then(|x| x.as_u64()), Some(6));
    let rd = rv.get("d").expect("d present");
    assert_eq!(rd.get("type").and_then(|x| x.as_u64()), Some(1));
    let data = rd.get("data").expect("data present");
    assert_eq!(data.get("channel_id").and_then(|x| x.as_str()), Some("123"));
    assert!(data.get("guild_id").expect("guild_id present").is_null());
    let token = data.get("token").and_then(|x| x.as_str()).expect("token present");
    assert_eq!(token.chars().count(), 64);
    assert!(store.contains("dm_123_voice", format!("token_{}", token).as_str()));
}

#[test]
fn close_is_terminal() {
    let cfg = engine_config("hunter2", 1);
    let mut store = SessionStore::new();
    let (mut conn, _) = Connection::accept(String::from("peer:1"), &cfg, &mut store);
    conn.close();
    assert_eq!(conn.state, ConnState::Closed);
}
