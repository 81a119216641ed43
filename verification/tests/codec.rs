//! Codec tests: decode errors, decode robustness, and round trips for
//! every opcode and INFO type.

use lvsp::{
    encode_message, get_infotype, get_opcode, InfoData, InfoType, MessageData, OpCode,
    SocketMessage, CHANNEL_REQ, IDENTIFY, INFO, VST_CREATE,
};

fn assert_round_trips(msg: SocketMessage) {
    let text = encode_message(&msg);
    let (op, d) = get_opcode(text.as_str()).expect("canonical encoding must decode");
    assert_eq!(op, msg.op);
    assert_eq!(d, msg.d);
}

#[test]
fn decode_unknown_op_is_error() {
    assert!(get_opcode("{\"op\": 99, \"d\": {}}").is_err());
}

#[test]
fn decode_identify_missing_token_is_error() {
    assert!(get_opcode("{\"op\": 1, \"d\": {\"notToken\": 1}}").is_err());
}

#[test]
fn decode_invalid_json_is_error() {
    assert!(get_opcode("{op: 1}").is_err());
    assert!(get_opcode("").is_err());
    assert!(get_opcode("[1, 2]").is_err());
    assert!(get_opcode("{\"op\": 1, \"d\": {\"token\": \"t\"}} trailing").is_err());
}

#[test]
fn decode_missing_envelope_fields_is_error() {
    assert!(get_opcode("{\"op\": 1}").is_err());
    assert!(get_opcode("{\"d\": {}}").is_err());
    assert!(get_opcode("{}").is_err());
}

#[test]
fn decode_fractional_op_is_error() {
    assert!(get_opcode("{\"op\": 1.5, \"d\": {\"token\": \"t\"}}").is_err());
}

#[test]
fn decode_payload_not_matching_op_is_error() {
    assert!(get_opcode("{\"op\": 4, \"d\": {\"token\": \"t\"}}").is_err());
    assert!(get_opcode("{\"op\": 1, \"d\": {}}").is_err());
}

#[test]
fn decode_info_payload_with_foreign_fields_is_error() {
    // Tagged CHANNEL_REQ but carrying VST_CREATE fields.
    assert!(
        get_opcode(
            "{\"op\": 6, \"d\": {\"type\": 0, \"data\": {\"user_id\": \"u\", \"channel_id\": \"c\", \"guild_id\": \"g\"}}}"
        )
        .is_err()
    );
}

#[test]
fn decode_unknown_info_type_is_error() {
    assert!(get_opcode("{\"op\": 6, \"d\": {\"type\": 9, \"data\": {}}}").is_err());
}

#[test]
fn decode_identify_ok() {
    let r = get_opcode("{\"op\": 1, \"d\": {\"token\": \"abc\"}}");
    match r {
        Ok((op, MessageData::IDENTIFY(i))) => {
            assert_eq!(op, OpCode::IDENTIFY);
            assert_eq!(i.token, "abc");
        },
        other => panic!("unexpected decode result: {:?}", other),
    }
}

#[test]
fn decode_accepts_whitespace_and_any_member_order() {
    let r = get_opcode(" { \"d\" : { \"token\" : \"t\" } ,\n\t\"op\" : 1 } ");
    match r {
        Ok((op, MessageData::IDENTIFY(i))) => {
            assert_eq!(op, OpCode::IDENTIFY);
            assert_eq!(i.token, "t");
        },
        other => panic!("unexpected decode result: {:?}", other),
    }
}

#[test]
fn round_trip_hello() {
    assert_round_trips(SocketMessage {
        op: OpCode::HELLO,
        d: MessageData::HELLO { heartbeat_interval: 1000, nonce: String::from("Ab3xYz09qW") },
    });
}

#[test]
fn round_trip_identify() {
    assert_round_trips(SocketMessage {
        op: OpCode::IDENTIFY,
        d: MessageData::IDENTIFY(IDENTIFY { token: String::from("00ff17ab") }),
    });
}

#[test]
fn round_trip_resume() {
    assert_round_trips(SocketMessage { op: OpCode::RESUME, d: MessageData::RESUME {} });
}

#[test]
fn round_trip_ready() {
    assert_round_trips(SocketMessage { op: OpCode::READY, d: MessageData::READY { health: 250 } });
    assert_round_trips(SocketMessage { op: OpCode::READY, d: MessageData::READY { health: 0 } });
    assert_round_trips(SocketMessage { op: OpCode::READY, d: MessageData::READY { health: 1000 } });
}

#[test]
fn round_trip_heartbeat() {
    assert_round_trips(SocketMessage { op: OpCode::HEARTBEAT, d: MessageData::HEARTBEAT {} });
}

#[test]
fn round_trip_heartbeat_ack() {
    assert_round_trips(SocketMessage {
        op: OpCode::HEARTBEAT_ACK,
        d: MessageData::HEARTBEAT_ACK { health: 999 },
    });
}

#[test]
fn round_trip_info_channel_req() {
    assert_round_trips(SocketMessage {
        op: OpCode::INFO,
        d: MessageData::INFO(INFO {
            _type: InfoType::CHANNEL_REQ,
            data: InfoData::CHANNEL_REQ(CHANNEL_REQ {
                channel_id: String::from("123"),
                guild_id: Some(String::from("456")),
            }),
        }),
    });
    assert_round_trips(SocketMessage {
        op: OpCode::INFO,
        d: MessageData::INFO(INFO {
            _type: InfoType::CHANNEL_REQ,
            data: InfoData::CHANNEL_REQ(CHANNEL_REQ {
                channel_id: String::from("123"),
                guild_id: None,
            }),
        }),
    });
}

#[test]
fn round_trip_info_channel_assign() {
    assert_round_trips(SocketMessage {
        op: OpCode::INFO,
        d: MessageData::INFO(INFO {
            _type: InfoType::CHANNEL_ASSIGN,
            data: InfoData::CHANNEL_ASSIGN {
                channel_id: String::from("123"),
                guild_id: None,
                token: String::from("tok"),
            },
        }),
    });
}

#[test]
fn round_trip_info_channel_destroy() {
    assert_round_trips(SocketMessage {
        op: OpCode::INFO,
        d: MessageData::INFO(INFO {
            _type: InfoType::CHANNEL_DESTROY,
            data: InfoData::CHANNEL_DESTROY {
                channel_id: String::from("9"),
                guild_id: Some(String::from("8")),
            },
        }),
    });
}

#[test]
fn round_trip_info_vst_create() {
    assert_round_trips(SocketMessage {
        op: OpCode::INFO,
        d: MessageData::INFO(INFO {
            _type: InfoType::VST_CREATE,
            data: InfoData::VST_CREATE(VST_CREATE {
                user_id: String::from("u1"),
                channel_id: String::from("c1"),
                guild_id: Some(String::from("g1")),
            }),
        }),
    });
}

#[test]
fn round_trip_info_vst_done() {
    assert_round_trips(SocketMessage {
        op: OpCode::INFO,
        d: MessageData::INFO(INFO {
            _type: InfoType::VST_DONE,
            data: InfoData::VST_DONE {
                user_id: String::from("u1"),
                channel_id: String::from("c1"),
                guild_id: None,
                session_id: String::from("s1"),
            },
        }),
    });
}

#[test]
fn round_trip_info_vst_destroy() {
    assert_round_trips(SocketMessage {
        op: OpCode::INFO,
        d: MessageData::INFO(INFO {
            _type: InfoType::VST_DESTROY,
            data: InfoData::VST_DESTROY { session_id: String::from("s1") },
        }),
    });
}

#[test]
fn round_trip_info_vst_update() {
    assert_round_trips(SocketMessage {
        op: OpCode::INFO,
        d: MessageData::INFO(INFO {
            _type: InfoType::VST_UPDATE,
            data: InfoData::VST_UPDATE { session_id: String::from("s1") },
        }),
    });
}

#[test]
fn round_trip_escaped_strings() {
    assert_round_trips(SocketMessage {
        op: OpCode::INFO,
        d: MessageData::INFO(INFO {
            _type: InfoType::VST_DESTROY,
            data: InfoData::VST_DESTROY { session_id: String::from("a\"b\\c/d\ne") },
        }),
    });
}

#[test]
fn decode_short_health_fraction() {
    let r = get_opcode("{\"op\": 3, \"d\": {\"health\": 0.25}}");
    match r {
        Ok((op, MessageData::READY { health })) => {
            assert_eq!(op, OpCode::READY);
            assert_eq!(health, 250);
        },
        other => panic!("unexpected decode result: {:?}", other),
    }
}

#[test]
fn decode_health_above_one_is_error() {
    assert!(get_opcode("{\"op\": 3, \"d\": {\"health\": 1.5}}").is_err());
    assert!(get_opcode("{\"op\": 3, \"d\": {\"health\": 2}}").is_err());
}

#[test]
fn encode_hello_is_valid_json() {
    let text = encode_message(&SocketMessage {
        op: OpCode::HELLO,
        d: MessageData::HELLO { heartbeat_interval: 7, nonce: String::from("Ab3xYz09qW") },
    });
    let v: serde_json::Value = serde_json::from_str(text.as_str()).expect("valid JSON");
    assert_eq!(v.get("op").and_then(|x| x.as_u64()), Some(0));
    let d = v.get("d").expect("d present");
    assert_eq!(d.get("heartbeat_interval").and_then(|x| x.as_u64()), Some(7));
    assert_eq!(d.get("nonce").and_then(|x| x.as_str()), Some("Ab3xYz09qW"));
}

#[test]
fn encode_absent_guild_is_null() {
    let text = encode_message(&SocketMessage {
        op: OpCode::INFO,
        d: MessageData::INFO(INFO {
            _type: InfoType::CHANNEL_REQ,
            data: InfoData::CHANNEL_REQ(CHANNEL_REQ {
                channel_id: String::from("123"),
                guild_id: None,
            }),
        }),
    });
    let v: serde_json::Value = serde_json::from_str(text.as_str()).expect("valid JSON");
    let data = v.get("d").and_then(|d| d.get("data")).expect("data present");
    assert!(data.get("guild_id").expect("guild_id present").is_null());
}

#[test]
fn encode_ready_health_is_decimal() {
    let text = encode_message(&SocketMessage {
        op: OpCode::READY,
        d: MessageData::READY { health: 250 },
    });
    let v: serde_json::Value = serde_json::from_str(text.as_str()).expect("valid JSON");
    let h = v.get("d").and_then(|d| d.get("health")).and_then(|x| x.as_f64()).expect("health");
    assert!((h - 0.25).abs() < 1e-9);
}

#[test]
fn decode_unicode_escape() {
    let r = get_opcode("{\"op\": 1, \"d\": {\"token\": \"\\u0041\"}}");
    match r {
        Ok((op, MessageData::IDENTIFY(i))) => {
            assert_eq!(op, OpCode::IDENTIFY);
            assert_eq!(i.token, "A");
        },
        other => panic!("unexpected decode result: {:?}", other),
    }
}

#[test]
fn decode_unicode_escape_surrogate_pair() {
    let r = get_opcode("{\"op\": 1, \"d\": {\"token\": \"\\uD83D\\uDE00!\"}}");
    match r {
        Ok((_, MessageData::IDENTIFY(i))) => {
            assert_eq!(i.token, "\u{1F600}!");
        },
        other => panic!("unexpected decode result: {:?}", other),
    }
}

#[test]
fn decode_unicode_escape_in_key() {
    let r = get_opcode("{\"\\u006Fp\": 4, \"d\": {}}");
    match r {
        Ok((op, MessageData::HEARTBEAT {})) => {
            assert_eq!(op, OpCode::HEARTBEAT);
        },
        other => panic!("unexpected decode result: {:?}", other),
    }
}

#[test]
fn decode_bad_unicode_escape_is_error() {
    // A lone high surrogate, a lone low surrogate, a low-then-high pair,
    // and non-hex digits.
    assert!(get_opcode("{\"op\": 1, \"d\": {\"token\": \"\\uD83D\"}}").is_err());
    assert!(get_opcode("{\"op\": 1, \"d\": {\"token\": \"\\uDE00\"}}").is_err());
    assert!(get_opcode("{\"op\": 1, \"d\": {\"token\": \"\\uDE00\\uD83D\"}}").is_err());
    assert!(get_opcode("{\"op\": 1, \"d\": {\"token\": \"\\uZZZZ\"}}").is_err());
    assert!(get_opcode("{\"op\": 1, \"d\": {\"token\": \"\\u00\"}}").is_err());
}

#[test]
fn decode_number_exponents() {
    // The value decides, not the notation: 1e0 is op 1, 0.4e1 is op 4.
    assert!(matches!(
        get_opcode("{\"op\": 1e0, \"d\": {\"token\": \"t\"}}"),
        Ok((OpCode::IDENTIFY, _))
    ));
    assert!(matches!(
        get_opcode("{\"op\": 0.4e1, \"d\": {}}"),
        Ok((OpCode::HEARTBEAT, _))
    ));
    match get_opcode("{\"op\": 3, \"d\": {\"health\": 2.5e-1}}") {
        Ok((_, MessageData::READY { health })) => assert_eq!(health, 250),
        other => panic!("unexpected decode result: {:?}", other),
    }
    match get_opcode("{\"op\": 3, \"d\": {\"health\": 1000E-3}}") {
        Ok((_, MessageData::READY { health })) => assert_eq!(health, 1000),
        other => panic!("unexpected decode result: {:?}", other),
    }
    // 1e3 is 1000, far above the 0..1 health scale.
    assert!(get_opcode("{\"op\": 3, \"d\": {\"health\": 1e3}}").is_err());
}

#[test]
fn decode_number_fractions() {
    // Trailing zeros carry no value and are accepted at any length.
    match get_opcode("{\"op\": 3, \"d\": {\"health\": 0.2500000}}") {
        Ok((_, MessageData::READY { health })) => assert_eq!(health, 250),
        other => panic!("unexpected decode result: {:?}", other),
    }
    assert!(matches!(
        get_opcode("{\"op\": 1.0, \"d\": {\"token\": \"t\"}}"),
        Ok((OpCode::IDENTIFY, _))
    ));
    // A value finer than thousandths is not one the protocol carries.
    assert!(get_opcode("{\"op\": 3, \"d\": {\"health\": 0.12345}}").is_err());
}

#[test]
fn decode_number_edge_forms() {
    // Negative values, leading zeros, and dangling parts are rejected;
    // minus zero is zero.
    assert!(get_opcode("{\"op\": -1, \"d\": {\"token\": \"t\"}}").is_err());
    assert!(get_opcode("{\"op\": 01, \"d\": {\"token\": \"t\"}}").is_err());
    assert!(get_opcode("{\"op\": 3, \"d\": {\"health\": 5.}}").is_err());
    assert!(get_opcode("{\"op\": 3, \"d\": {\"health\": 1e}}").is_err());
    match get_opcode("{\"op\": -0, \"d\": {\"heartbeat_interval\": 1, \"nonce\": \"abcdefghij\"}}")
    {
        Ok((op, MessageData::HELLO { .. })) => assert_eq!(op, OpCode::HELLO),
        other => panic!("unexpected decode result: {:?}", other),
    }
}

#[test]
fn decode_number_large_values() {
    // 1e19 fits u64; 2e19 does not; a huge exponent on zero is zero.
    match get_opcode(
        "{\"op\": 0, \"d\": {\"heartbeat_interval\": 1e19, \"nonce\": \"abcdefghij\"}}",
    ) {
        Ok((_, MessageData::HELLO { heartbeat_interval, .. })) => {
            assert_eq!(heartbeat_interval, 10000000000000000000u64);
        },
        other => panic!("unexpected decode result: {:?}", other),
    }
    assert!(get_opcode(
        "{\"op\": 0, \"d\": {\"heartbeat_interval\": 2e19, \"nonce\": \"abcdefghij\"}}"
    )
    .is_err());
    match get_opcode(
        "{\"op\": 0, \"d\": {\"heartbeat_interval\": 0e99999999999999999999, \"nonce\": \"abcdefghij\"}}",
    ) {
        Ok((_, MessageData::HELLO { heartbeat_interval, .. })) => {
            assert_eq!(heartbeat_interval, 0);
        },
        other => panic!("unexpected decode result: {:?}", other),
    }
}

#[test]
fn get_infotype_ok() {
    let r = get_infotype(
        "{\"op\": 6, \"d\": {\"type\": 0, \"data\": {\"channel_id\": \"c\", \"guild_id\": null}}}",
    );
    match r {
        Ok((t, InfoData::CHANNEL_REQ(q))) => {
            assert_eq!(t, InfoType::CHANNEL_REQ);
            assert_eq!(q.channel_id, "c");
            assert_eq!(q.guild_id, None);
        },
        other => panic!("unexpected decode result: {:?}", other),
    }
}

#[test]
fn get_infotype_non_info_is_error() {
    assert!(get_infotype("{\"op\": 4, \"d\": {}}").is_err());
    assert!(get_infotype("{\"op\": 6, \"d\": {\"type\": 0, \"data\": {}}}").is_err());
}
