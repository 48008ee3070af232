use discord_rich_presence::activity::{Activity, Assets};
use discord_rich_presence::discord_ipc::{
    command_payload, decode_reply, frame, handshake_payload, DiscordIpc, DiscordRpcError,
};
use discord_rich_presence::error::Error;
use discord_rich_presence::loopback::{Call, Loopback};
use discord_rich_presence::pack_unpack::{pack, unpack};
use serde_json::Value;

fn json(text: &str) -> Value {
    serde_json::from_str(text).unwrap()
}

fn frame_of(opcode: u32, text: &str) -> Vec<u8> {
    let mut bytes = pack(opcode, text.len() as u32);
    bytes.extend_from_slice(text.as_bytes());
    bytes
}

fn opened(client_id: &str) -> Loopback {
    let mut session = Loopback::new(client_id);
    assert_eq!(session.connect_ipc(), Ok(()));
    session
}

fn filled(bytes: &[u8]) -> Call {
    Call::Read {
        len: bytes.len(),
        filled: Some(bytes.to_vec()),
    }
}

fn failed(len: usize) -> Call {
    Call::Read { len, filled: None }
}

fn frames(session: &Loopback) -> Vec<Vec<u8>> {
    let mut frames = Vec::new();
    for call in session.calls() {
        if let Call::Write { data, .. } = call {
            frames.push(data.clone());
        }
    }
    frames
}

fn payload_of(frame: &[u8]) -> (u32, Value) {
    let (opcode, length) = unpack(frame[..8].to_vec()).unwrap();
    assert_eq!(length as usize, frame.len() - 8);
    (opcode, serde_json::from_slice(&frame[8..]).unwrap())
}

#[test]
fn frame_is_header_then_payload() {
    assert_eq!(
        frame(1, b"{}"),
        vec![1, 0, 0, 0, 2, 0, 0, 0, b'{', b'}']
    );
    assert_eq!(frame(0, b""), vec![0, 0, 0, 0, 0, 0, 0, 0]);
}

#[test]
fn send_writes_one_frame_with_compact_json() {
    let mut session = opened("1");
    assert_eq!(session.send(json(r#"{ "b": [1, 2], "a": "x" }"#), 1), Ok(()));
    let expected = frame_of(1, r#"{"a":"x","b":[1,2]}"#);
    assert_eq!(
        session.calls(),
        &vec![
            Call::Open { opened: true },
            Call::Write {
                data: expected,
                written: true
            }
        ]
    );
}

#[test]
fn send_then_recv_over_loopback_gives_the_value_back() {
    let documents = [
        r#"{}"#,
        r#"{"field":"value"}"#,
        r#"{"a":{"b":{"c":{"d":{"e":[1,2,{"f":null}]}}}}}"#,
        r#"{"empty":{},"list":[],"flag":true,"n":-12,"big":18446744073709551615}"#,
        r#"{"text":"line\nbreak \"quoted\" é中"}"#,
        r#"[1,"two",{"three":3}]"#,
        r#""just a string""#,
        r#"null"#,
    ];
    let opcodes: [u32; 4] = [0, 1, 256, u32::MAX];
    for (i, text) in documents.iter().enumerate() {
        let opcode = opcodes[i % 4];
        let mut session = opened("1");
        assert_eq!(session.send(json(text), opcode), Ok(()));
        assert_eq!(session.recv(), Ok((opcode, json(text))));
        assert_eq!(session.pending(), 0);
    }
}

#[test]
fn send_writes_the_opcode_in_full() {
    let mut session = opened("1");
    assert_eq!(session.send(json("{}"), 256), Ok(()));
    let mut expected = pack(256, 2);
    expected.extend_from_slice(br#"{}"#);
    assert_eq!(expected, vec![0, 1, 0, 0, 2, 0, 0, 0, b'{', b'}']);
    assert_eq!(
        session.calls(),
        &vec![
            Call::Open { opened: true },
            Call::Write {
                data: expected,
                written: true
            }
        ]
    );
}

#[test]
fn send_leaves_what_is_to_be_read() {
    let mut session = opened("1");
    session.set_echo(false);
    session.feed(&frame_of(7, r#"{"unread":true}"#));
    let before = session.pending();
    assert_eq!(session.send(json("{}"), 1), Ok(()));
    assert_eq!(session.pending(), before);
    assert_eq!(session.recv(), Ok((7, json(r#"{"unread":true}"#))));

    let mut closed = Loopback::new("1");
    closed.feed(&frame_of(7, "{}"));
    assert_eq!(closed.send_handshake(), Err(Error::WriteFailed));
    assert_eq!(closed.pending(), 10);
    assert_eq!(closed.calls().len(), 1);
}

#[test]
fn recv_takes_one_frame_at_a_time() {
    let mut session = opened("1");
    session.set_echo(false);
    session.feed(&frame_of(5, r#"{"first":1}"#));
    session.feed(&frame_of(6, r#"{"second":2}"#));
    assert_eq!(session.recv(), Ok((5, json(r#"{"first":1}"#))));
    assert_eq!(session.recv(), Ok((6, json(r#"{"second":2}"#))));
    assert_eq!(session.recv(), Err(Error::ReadFailed));
    assert_eq!(
        session.calls(),
        &vec![
            Call::Open { opened: true },
            filled(&pack(5, 11)),
            filled(br#"{"first":1}"#),
            filled(&pack(6, 12)),
            filled(br#"{"second":2}"#),
            failed(8),
        ]
    );
}

#[test]
fn recv_error_reply_is_remote_protocol_error() {
    let mut session = opened("1");
    session.feed(&frame_of(1, r#"{"code": 4000, "message": "boom"}"#));
    assert_eq!(
        session.recv(),
        Err(Error::RemoteProtocolError("boom".to_string()))
    );
}

#[test]
fn recv_error_reply_with_other_members_is_remote_protocol_error() {
    let mut session = opened("1");
    session.feed(&frame_of(
        2,
        r#"{"message":"Invalid Client ID","code":-1,"evt":"ERROR"}"#,
    ));
    assert_eq!(
        session.recv(),
        Err(Error::RemoteProtocolError("Invalid Client ID".to_string()))
    );
}

#[test]
fn recv_documents_that_are_no_error_reply() {
    let documents = [
        r#"{"code":4000}"#,
        r#"{"message":"boom"}"#,
        r#"{"code":"4000","message":"boom"}"#,
        r#"{"code":4000,"message":7}"#,
        r#"{"code":4000.5,"message":"boom"}"#,
        r#"{"code":4000.0,"message":"boom"}"#,
        r#"{"code":1e3,"message":"boom"}"#,
        r#"{"code":null,"message":"boom"}"#,
        r#"{"code":true,"message":"boom"}"#,
        r#"[4000,"boom"]"#,
        r#"{"data":{"code":4000,"message":"boom"}}"#,
    ];
    for text in documents {
        let mut session = opened("1");
        session.feed(&frame_of(1, text));
        assert_eq!(session.recv(), Ok((1, json(text))));
    }
}

#[test]
fn recv_error_reply_at_the_limits_of_the_code() {
    for code in [i32::MIN, -1, 0, i32::MAX] {
        let mut session = opened("1");
        session.feed(&frame_of(
            1,
            &format!(r#"{{"code":{},"message":"m"}}"#, code),
        ));
        assert_eq!(
            session.recv(),
            Err(Error::RemoteProtocolError("m".to_string()))
        );
    }
}

#[test]
fn recv_error_reply_with_a_code_beyond_32_bits() {
    let codes = [
        "2147483648",
        "-2147483649",
        "3000000000",
        "9223372036854775807",
        "9223372036854775808",
        "18446744073709551615",
        "-9223372036854775808",
    ];
    for code in codes {
        let mut session = opened("1");
        session.feed(&frame_of(
            1,
            &format!(r#"{{"code":{},"message":"m"}}"#, code),
        ));
        assert_eq!(
            session.recv(),
            Err(Error::RemoteProtocolError("m".to_string()))
        );
    }
}

#[test]
fn recv_short_header_is_read_failed() {
    let mut session = opened("1");
    session.feed(&[1, 0, 0, 0, 2, 0, 0]);
    assert_eq!(session.recv(), Err(Error::ReadFailed));
    let mut empty = opened("1");
    assert_eq!(empty.recv(), Err(Error::ReadFailed));
}

#[test]
fn recv_oversized_declared_length_is_read_failed() {
    let mut session = opened("1");
    let mut bytes = pack(1, 100);
    bytes.extend_from_slice(br#"{"a":1}"#);
    session.feed(&bytes);
    assert_eq!(session.recv(), Err(Error::ReadFailed));
    assert_eq!(
        session.calls()[1..],
        [filled(&pack(1, 100)), failed(100)]
    );

    let mut large = opened("1");
    large.feed(&pack(1, 1 << 20));
    large.feed(&vec![b' '; (1 << 20) - 1]);
    assert_eq!(large.recv(), Err(Error::ReadFailed));
}

#[test]
fn recv_invalid_utf8_is_decode_failed() {
    let mut session = opened("1");
    let mut bytes = pack(1, 4);
    bytes.extend_from_slice(&[b'"', 0xff, 0xfe, b'"']);
    session.feed(&bytes);
    assert_eq!(session.recv(), Err(Error::DecodeFailed));
}

#[test]
fn recv_invalid_json_is_decode_failed() {
    for text in ["", "{", r#"{"a":}"#, "nul", r#"{"a":1} x"#] {
        let mut session = opened("1");
        session.feed(&frame_of(1, text));
        assert_eq!(session.recv(), Err(Error::DecodeFailed));
    }
}

#[test]
fn recv_on_a_disconnected_session_is_read_failed() {
    let mut session = Loopback::new("1");
    session.feed(&frame_of(1, "{}"));
    assert_eq!(session.recv(), Err(Error::ReadFailed));
}

#[test]
fn send_on_a_disconnected_session_is_write_failed() {
    let mut session = Loopback::new("1");
    assert_eq!(session.send(json("{}"), 1), Err(Error::WriteFailed));
    assert_eq!(session.pending(), 0);
    assert_eq!(
        session.calls(),
        &vec![Call::Write {
            data: frame_of(1, "{}"),
            written: false
        }]
    );
}

#[test]
fn handshake_sends_version_and_client_id_with_opcode_zero() {
    let mut session = opened("123456");
    assert_eq!(session.send_handshake(), Ok(()));
    let expected = frame_of(0, r#"{"client_id":"123456","v":1}"#);
    assert_eq!(expected.len(), 8 + 28);
    assert_eq!(
        session.calls(),
        &vec![
            Call::Open { opened: true },
            Call::Write {
                data: expected,
                written: true
            },
            filled(&pack(0, 28)),
            filled(br#"{"client_id":"123456","v":1}"#),
        ]
    );
    assert_eq!(session.pending(), 0);
}

#[test]
fn handshake_accepts_any_reply_that_is_no_error() {
    let mut session = opened("1");
    session.set_echo(false);
    session.feed(&frame_of(1, r#"{"unexpected":["shape"]}"#));
    assert_eq!(session.send_handshake(), Ok(()));
}

#[test]
fn connect_succeeds_and_connects() {
    let mut session = Loopback::new("123456");
    assert!(!session.is_connected());
    assert_eq!(session.connect(), Ok(()));
    assert!(session.is_connected());
    assert_eq!(frames(&session).len(), 1);
    assert_eq!(session.calls().len(), 4);
}

#[test]
fn connect_without_transport_is_connection_failed() {
    let mut session = Loopback::new("1");
    session.set_accepting(false);
    assert_eq!(session.connect(), Err(Error::ConnectionFailed));
    assert!(!session.is_connected());
    assert_eq!(
        session.calls(),
        &vec![Call::Open { opened: false }, Call::Close]
    );
}

#[test]
fn connect_with_failed_handshake_leaves_disconnected() {
    let mut refused = Loopback::new("1");
    refused.set_echo(false);
    refused.feed(&frame_of(
        1,
        r#"{"code":4000,"message":"Invalid Client ID"}"#,
    ));
    assert_eq!(
        refused.connect(),
        Err(Error::RemoteProtocolError("Invalid Client ID".to_string()))
    );
    assert!(!refused.is_connected());
    assert_eq!(refused.calls().last(), Some(&Call::Close));

    let mut silent = Loopback::new("1");
    silent.set_echo(false);
    assert_eq!(silent.connect(), Err(Error::ReadFailed));
    assert!(!silent.is_connected());
    assert_eq!(frames(&silent).len(), 1);
    assert_eq!(
        silent.calls()[2..],
        [
            failed(8),
            Call::Close
        ]
    );

    let mut garbled = Loopback::new("1");
    garbled.set_echo(false);
    garbled.feed(&frame_of(1, "not json"));
    assert_eq!(garbled.connect(), Err(Error::DecodeFailed));
    assert!(!garbled.is_connected());
}

#[test]
fn close_twice_never_fails_and_leaves_disconnected() {
    let mut session = Loopback::new("1");
    assert_eq!(session.connect(), Ok(()));
    assert_eq!(session.close(), Ok(()));
    assert!(!session.is_connected());
    assert_eq!(session.close(), Ok(()));
    assert!(!session.is_connected());

    let mut fresh = Loopback::new("1");
    assert_eq!(fresh.close(), Ok(()));
    assert_eq!(fresh.close(), Ok(()));
    assert!(!fresh.is_connected());
}

#[test]
fn reconnect_on_a_fresh_session_does_what_connect_does() {
    let mut connected = Loopback::new("42");
    let mut reconnected = Loopback::new("42");
    assert_eq!(connected.connect(), Ok(()));
    assert_eq!(reconnected.reconnect(), Ok(()));
    assert_eq!(connected.is_connected(), reconnected.is_connected());
    assert_eq!(frames(&connected), frames(&reconnected));
    assert_eq!(connected.pending(), reconnected.pending());
    assert_eq!(reconnected.calls()[0], Call::Close);
    assert_eq!(connected.calls()[..], reconnected.calls()[1..]);

    let mut refusing = Loopback::new("42");
    refusing.set_accepting(false);
    let mut refusing_again = Loopback::new("42");
    refusing_again.set_accepting(false);
    assert_eq!(refusing.connect(), Err(Error::ConnectionFailed));
    assert_eq!(refusing_again.reconnect(), Err(Error::ConnectionFailed));
    assert_eq!(refusing.is_connected(), refusing_again.is_connected());
    assert_eq!(refusing.calls()[..], refusing_again.calls()[1..]);
}

#[test]
fn reconnect_on_a_connected_session_connects_again() {
    let mut session = Loopback::new("42");
    assert_eq!(session.connect(), Ok(()));
    assert_eq!(session.reconnect(), Ok(()));
    assert!(session.is_connected());
    let handshake = frame_of(0, r#"{"client_id":"42","v":1}"#);
    assert_eq!(frames(&session), vec![handshake.clone(), handshake]);
}

#[test]
fn set_activity_sends_one_command_frame() {
    let mut session = Loopback::new("123456");
    assert_eq!(session.connect(), Ok(()));
    let activity = Activity::new().state("hello");
    let before = session.calls().len();
    assert_eq!(session.set_activity(activity, 4321), Ok(()));
    assert_eq!(session.calls().len(), before + 1);
    assert_eq!(frames(&session).len(), 2);
    let (opcode, command) = payload_of(&frames(&session)[1]);
    assert_eq!(opcode, 1);
    assert_eq!(command["cmd"], Value::from("SET_ACTIVITY"));
    assert_eq!(command["args"]["pid"], Value::from(4321u32));
    assert_eq!(command["args"]["activity"], json(r#"{"state":"hello"}"#));
    assert_eq!(command["args"]["activity"]["state"], Value::from("hello"));
    assert_eq!(command.as_object().unwrap().len(), 3);
    assert_eq!(command["args"].as_object().unwrap().len(), 2);
    assert_eq!(session.close(), Ok(()));
    assert_eq!(session.reconnect(), Ok(()));
    assert!(session.is_connected());
}

#[test]
fn set_activity_uses_a_fresh_nonce_each_time() {
    let mut session = opened("1");
    assert_eq!(session.set_activity(Activity::new(), 1), Ok(()));
    assert_eq!(session.set_activity(Activity::new(), 1), Ok(()));
    let first = payload_of(&frames(&session)[0]).1;
    let second = payload_of(&frames(&session)[1]).1;
    let nonces = [
        first["nonce"].as_str().unwrap().to_string(),
        second["nonce"].as_str().unwrap().to_string(),
    ];
    assert_ne!(nonces[0], nonces[1]);
    for nonce in nonces {
        let chars: Vec<char> = nonce.chars().collect();
        assert_eq!(chars.len(), 36);
        for (i, c) in chars.iter().enumerate() {
            if i == 8 || i == 13 || i == 18 || i == 23 {
                assert_eq!(*c, '-');
            } else {
                assert!(matches!(*c, '0'..='9' | 'a'..='f'));
            }
        }
        assert_eq!(chars[14], '4');
    }
}

#[test]
fn set_activity_does_not_read() {
    let mut session = opened("1");
    session.set_echo(false);
    session.feed(&frame_of(1, r#"{"code":1,"message":"unread"}"#));
    let before = session.pending();
    assert_eq!(session.set_activity(Activity::new(), 1), Ok(()));
    assert_eq!(session.pending(), before);
}

#[test]
fn clear_activity_sends_null_for_the_activity() {
    let mut session = opened("1");
    assert_eq!(session.clear_activity(77), Ok(()));
    assert_eq!(session.calls().len(), 2);
    let (opcode, command) = payload_of(&frames(&session)[0]);
    assert_eq!(opcode, 1);
    assert_eq!(command["cmd"], Value::from("SET_ACTIVITY"));
    assert_eq!(command["args"]["pid"], Value::from(77u32));
    assert!(command["args"]
        .as_object()
        .unwrap()
        .get("activity")
        .unwrap()
        .is_null());
    assert_eq!(command["nonce"].as_str().unwrap().len(), 36);
}

#[test]
fn test_reconnect() {
    let mut client = Loopback::new("771124766517755954");
    loop {
        if client.connect().is_ok() {
            break;
        }
    }
    assert_eq!(client.close(), Ok(()));

    let mut failed = 0;
    let mut sent = 0;
    for _ in 0..4 {
        let payload = Activity::new()
            .state("part 1 (test)")
            .details("a placeholder")
            .assets(
                Assets::new()
                    .large_image("large-image")
                    .large_text("a thing"),
            );

        if client.set_activity(payload, 1).is_err() && client.reconnect().is_ok() {
            failed += 1;
            continue;
        }
        sent += 1;
    }
    assert_eq!(failed, 1);
    assert_eq!(sent, 3);
    assert!(client.is_connected());

    let written = frames(&client);
    assert_eq!(written.len(), 6);
    let (opcode, command) = payload_of(&written[5]);
    assert_eq!(opcode, 1);
    assert_eq!(
        command["args"]["activity"],
        json(
            r#"{"state":"part 1 (test)","details":"a placeholder",
                "assets":{"large_image":"large-image","large_text":"a thing"}}"#
        )
    );
}

#[test]
fn get_client_id_is_the_id_of_the_session() {
    let session = Loopback::new("123456");
    assert_eq!(session.get_client_id(), "123456");
}

#[test]
fn error_reply_is_read_from_a_value() {
    assert_eq!(
        DiscordRpcError::from_value(&json(r#"{"code":4000,"message":"boom"}"#)),
        Some(DiscordRpcError {
            code: 4000,
            message: "boom".to_string()
        })
    );
    assert_eq!(
        DiscordRpcError::from_value(&json(r#"{"code":-7,"message":"","more":[1]}"#)),
        Some(DiscordRpcError {
            code: -7,
            message: String::new()
        })
    );
    assert_eq!(
        DiscordRpcError::from_value(&json(r#"{"code":18446744073709551615,"message":"m"}"#)),
        Some(DiscordRpcError {
            code: 18446744073709551615,
            message: "m".to_string()
        })
    );
    assert_eq!(
        DiscordRpcError::from_value(&json(r#"{"code":-9223372036854775808,"message":"m"}"#)),
        Some(DiscordRpcError {
            code: -9223372036854775808,
            message: "m".to_string()
        })
    );
    assert_eq!(
        DiscordRpcError::from_value(&json(r#"{"code":0.5,"message":"m"}"#)),
        None
    );
    assert_eq!(DiscordRpcError::from_value(&json(r#"{"code":4000}"#)), None);
    assert_eq!(DiscordRpcError::from_value(&json(r#""boom""#)), None);
    assert_eq!(DiscordRpcError::from_value(&json("null")), None);
}

#[test]
fn decode_reply_of_payloads() {
    assert_eq!(
        decode_reply(3, br#"{"a":[true,null]}"#.to_vec()),
        Ok((3, json(r#"{"a":[true,null]}"#)))
    );
    assert_eq!(
        decode_reply(1, br#"{"code":1,"message":"no"}"#.to_vec()),
        Err(Error::RemoteProtocolError("no".to_string()))
    );
    assert_eq!(decode_reply(1, vec![0xc3, 0x28]), Err(Error::DecodeFailed));
    assert_eq!(decode_reply(1, b"{".to_vec()), Err(Error::DecodeFailed));
    assert_eq!(decode_reply(1, Vec::new()), Err(Error::DecodeFailed));
}

#[test]
fn handshake_payload_holds_version_and_client_id() {
    assert_eq!(
        handshake_payload("123456"),
        json(r#"{"v":1,"client_id":"123456"}"#)
    );
    assert_eq!(
        handshake_payload("123456").to_string(),
        r#"{"client_id":"123456","v":1}"#
    );
}

#[test]
fn command_payload_wraps_the_activity() {
    assert_eq!(
        command_payload(9, json(r#"{"state":"s"}"#), "n-1"),
        json(r#"{"cmd":"SET_ACTIVITY","args":{"pid":9,"activity":{"state":"s"}},"nonce":"n-1"}"#)
    );
    assert_eq!(
        command_payload(u32::MAX, Value::Null, ""),
        json(r#"{"cmd":"SET_ACTIVITY","args":{"pid":4294967295,"activity":null},"nonce":""}"#)
    );
}

#[test]
fn error_messages() {
    assert_eq!(Error::ConnectionFailed.message(), "connection failed");
    assert_eq!(Error::WriteFailed.message(), "write failed");
    assert_eq!(Error::ReadFailed.message(), "read failed");
    assert_eq!(Error::DecodeFailed.message(), "decode failed");
    assert_eq!(Error::MalformedHeader.message(), "malformed header");
    assert_eq!(
        Error::RemoteProtocolError("boom".to_string()).message(),
        "boom"
    );
}
