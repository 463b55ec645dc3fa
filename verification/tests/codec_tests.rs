use termchat::codec::{decode, encode};
use termchat::message::{ClientMessage, DecodeError, ServerMessage};

fn ok(frame: &str) -> ServerMessage {
    match decode(frame) {
        Ok(m) => m,
        Err(e) => panic!("frame {:?} did not decode: {:?}", frame, e),
    }
}

#[test]
fn decode_join_literal() {
    assert_eq!(
        ok(r#"{"type":"join","username":"alice"}"#),
        ServerMessage::Join { username: "alice".to_string() }
    );
}

#[test]
fn decode_leave_literal() {
    assert_eq!(
        ok(r#"{"type":"leave","username":"alice"}"#),
        ServerMessage::Leave { username: "alice".to_string() }
    );
}

#[test]
fn decode_message_literal() {
    assert_eq!(
        ok(r#"{"type":"message","username":"alice","content":"hi"}"#),
        ServerMessage::Message { username: "alice".to_string(), content: "hi".to_string() }
    );
}

#[test]
fn decode_error_literal() {
    assert_eq!(
        ok(r#"{"type":"error","message":"room full"}"#),
        ServerMessage::Error { message: "room full".to_string() }
    );
}

#[test]
fn decode_auth_failed_literal() {
    assert_eq!(
        ok(r#"{"type":"auth_failed","message":"bad password"}"#),
        ServerMessage::AuthFailed { message: "bad password".to_string() }
    );
}

#[test]
fn decode_colourshift_literal() {
    assert_eq!(
        ok(r##"{"type":"colourshift","color":"#87CEEB"}"##),
        ServerMessage::ColorShift { color: "#87CEEB".to_string() }
    );
}

#[test]
fn decode_bgshift_literal() {
    assert_eq!(
        ok(r##"{"type":"bgshift","color":"#000000"}"##),
        ServerMessage::BackgroundShift { color: "#000000".to_string() }
    );
}

#[test]
fn decode_chatclear_literal() {
    assert_eq!(ok(r#"{"type":"chatclear"}"#), ServerMessage::ChatClear);
}

#[test]
fn decode_kicked_literal() {
    assert_eq!(
        ok(r#"{"type":"kicked","message":"spamming"}"#),
        ServerMessage::Kicked { message: "spamming".to_string() }
    );
}

#[test]
fn decode_resolves_escapes() {
    assert_eq!(
        ok("{\"type\":\"message\",\"username\":\"a\",\"content\":\"say \\\"hi\\\"\\n\"}"),
        ServerMessage::Message {
            username: "a".to_string(),
            content: "say \"hi\"\n".to_string()
        }
    );
}

#[test]
fn decode_unknown_discriminant_keeps_raw() {
    let raw = r#"{"type":"dance","username":"alice"}"#;
    assert_eq!(decode(raw), Err(DecodeError::Unrecognized(raw.to_string())));
}

#[test]
fn decode_malformed_keeps_raw() {
    for raw in [
        "",
        "hello",
        r#"{"type":"join"}"#,
        r#"{"type":"join","username":"alice""#,
        r#"{"type":"message","content":"hi","username":"alice"}"#,
        r#"{"type":"kicked","message":"x"} "#,
    ] {
        assert_eq!(decode(raw), Err(DecodeError::Unrecognized(raw.to_string())));
    }
}

#[test]
fn encode_join_frame() {
    let cmd = ClientMessage::Join {
        username: "alice".to_string(),
        chatname: "general".to_string(),
        password: "default".to_string(),
    };
    assert_eq!(
        encode(&cmd),
        r#"{"type":"join","username":"alice","chatname":"general","password":"default"}"#
    );
}

#[test]
fn encode_message_frame() {
    let cmd = ClientMessage::Message { content: "hello there".to_string() };
    assert_eq!(encode(&cmd), r#"{"type":"message","content":"hello there"}"#);
}

#[test]
fn encode_escapes_specials() {
    let cmd = ClientMessage::Message { content: "a\"b\\c\nd\re\tf".to_string() };
    assert_eq!(
        encode(&cmd),
        "{\"type\":\"message\",\"content\":\"a\\\"b\\\\c\\nd\\re\\tf\"}"
    );
}

#[test]
fn encode_escapes_control_characters() {
    // Control characters without a single-letter escape appear as
    // \u00XX, so every emitted frame is a valid JSON object.
    let cmd = ClientMessage::Message { content: "a\u{1}b\u{1f}c".to_string() };
    assert_eq!(
        encode(&cmd),
        "{\"type\":\"message\",\"content\":\"a\\u0001b\\u001fc\"}"
    );
}

#[test]
fn decode_resolves_control_escapes() {
    assert_eq!(
        ok("{\"type\":\"message\",\"username\":\"a\",\"content\":\"x\\u0001y\"}"),
        ServerMessage::Message { username: "a".to_string(), content: "x\u{1}y".to_string() }
    );
}

#[test]
fn decode_rejects_non_canonical_escapes() {
    // \u0041 is 'A', which the canonical form carries unescaped; a raw
    // control character would be escaped. Both fall to the diagnostic.
    for raw in [
        "{\"type\":\"kicked\",\"message\":\"\\u0041\"}",
        "{\"type\":\"kicked\",\"message\":\"a\u{1}b\"}",
        "{\"type\":\"kicked\",\"message\":\"\\u000a\"}",
    ] {
        assert_eq!(decode(raw), Err(DecodeError::Unrecognized(raw.to_string())));
    }
}

#[test]
fn message_round_trip_through_wire_shape() {
    // An inbound message frame in the same canonical shape as encode
    // produces for outbound frames: decoding resolves exactly the
    // escapes that escaping introduced.
    let content = "quote \" backslash \\ newline \n tab \t done";
    let frame = format!(
        "{{\"type\":\"message\",\"username\":\"bob\",\"content\":\"{}\"}}",
        content
            .replace('\\', "\\\\")
            .replace('"', "\\\"")
            .replace('\n', "\\n")
            .replace('\t', "\\t")
    );
    assert_eq!(
        ok(&frame),
        ServerMessage::Message { username: "bob".to_string(), content: content.to_string() }
    );
}
