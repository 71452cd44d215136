use ws_chat::codec::{decode, encode};
use ws_chat::message::{MessageError, SocketMessage};

fn all_variants() -> Vec<SocketMessage> {
    vec![
        SocketMessage::message("alice", "bob", "hi"),
        SocketMessage::SetName { name: "alice".to_string() },
        SocketMessage::RequestMe,
        SocketMessage::me("anon"),
        SocketMessage::RequestUsers,
        SocketMessage::Users { list: vec![] },
        SocketMessage::Users { list: vec!["alice".to_string(), "bob".to_string()] },
        SocketMessage::error("cannot find user"),
        SocketMessage::message("q\"uote", "back\\slash", "a, b: {c}] \"\\"),
        SocketMessage::message("", "", ""),
        SocketMessage::Users { list: vec!["a,\"b\"".to_string(), "]".to_string(), "".to_string()] },
        SocketMessage::me("été ☃"),
        SocketMessage::message("line\none", "tab\there", "\u{0}\u{1f}\u{7f} end"),
    ]
}

#[test]
fn encode_directed_message_frame() {
    let m = SocketMessage::message("alice", "bob", "hi");
    assert_eq!(encode(&m), r#"{"type":"Message","from":"alice","to":"bob","content":"hi"}"#);
}

#[test]
fn encode_error_frame() {
    let m = SocketMessage::error("cannot find user");
    assert_eq!(encode(&m), r#"{"type":"Error","err":{"msg":"cannot find user"}}"#);
}

#[test]
fn encode_other_frames() {
    assert_eq!(encode(&SocketMessage::me("anon")), r#"{"type":"Me","name":"anon"}"#);
    assert_eq!(encode(&SocketMessage::RequestMe), r#"{"type":"RequestMe"}"#);
    assert_eq!(encode(&SocketMessage::RequestUsers), r#"{"type":"RequestUsers"}"#);
    assert_eq!(
        encode(&SocketMessage::SetName { name: "bob".to_string() }),
        r#"{"type":"SetName","name":"bob"}"#
    );
    assert_eq!(
        encode(&SocketMessage::Users { list: vec!["a".to_string(), "b".to_string()] }),
        r#"{"type":"Users","list":["a","b"]}"#
    );
    assert_eq!(encode(&SocketMessage::Users { list: vec![] }), r#"{"type":"Users","list":[]}"#);
}

#[test]
fn encode_escapes_quotes_and_backslashes() {
    let m = SocketMessage::me("a\"b\\c");
    assert_eq!(encode(&m), r#"{"type":"Me","name":"a\"b\\c"}"#);
}

#[test]
fn decode_directed_message_frame() {
    let r = decode(r#"{"type":"Message","from":"alice","to":"bob","content":"hi"}"#);
    assert_eq!(r, Ok(SocketMessage::message("alice", "bob", "hi")));
}

#[test]
fn decode_escaped_string() {
    let r = decode(r#"{"type":"SetName","name":"x\"y\\z"}"#);
    assert_eq!(r, Ok(SocketMessage::SetName { name: "x\"y\\z".to_string() }));
}

#[test]
fn round_trip_every_variant() {
    for m in all_variants() {
        let frame = encode(&m);
        assert_eq!(decode(&frame), Ok(m));
    }
}

fn malformed() -> Result<SocketMessage, MessageError> {
    Err(MessageError { msg: "serde_json::error::Error".to_string() })
}

#[test]
fn decode_unknown_tag_is_error() {
    assert_eq!(decode(r#"{"type":"Shout","msg":"x"}"#), malformed());
    assert_eq!(decode(r#"{"type":"message","from":"a","to":"b","content":"c"}"#), malformed());
}

#[test]
fn decode_missing_field_is_error() {
    assert_eq!(decode(r#"{"type":"Message","from":"a","to":"b"}"#), malformed());
    assert_eq!(decode(r#"{"type":"SetName"}"#), malformed());
    assert_eq!(decode(r#"{"type":"Error","err":{}}"#), malformed());
}

#[test]
fn decode_wrong_field_type_is_error() {
    assert_eq!(decode(r#"{"type":"SetName","name":7}"#), malformed());
    assert_eq!(decode(r#"{"type":"Users","list":"a"}"#), malformed());
}

#[test]
fn decode_garbage_is_error() {
    assert_eq!(decode(""), malformed());
    assert_eq!(decode("hello"), malformed());
    assert_eq!(decode("{"), malformed());
    assert_eq!(decode(r#"{"type":"Me","name":"unterminated}"#), malformed());
    assert_eq!(decode(r#"{"type":"Me","name":"bad\escape"}"#), malformed());
    assert_eq!(decode(r#"{"type":"Users","list":["a",]}"#), malformed());
}

#[test]
fn encode_escapes_control_characters() {
    assert_eq!(encode(&SocketMessage::me("a\nb\t")), r#"{"type":"Me","name":"a\nb\t"}"#);
    assert_eq!(encode(&SocketMessage::me("\u{1f}\u{0}")), r#"{"type":"Me","name":"\u001f\u0000"}"#);
    assert_eq!(encode(&SocketMessage::me("\u{7f}")), "{\"type\":\"Me\",\"name\":\"\u{7f}\"}");
}

#[test]
fn decode_control_escape() {
    let r = decode(r#"{"type":"Me","name":"a\u0009b"}"#);
    assert_eq!(r, Ok(SocketMessage::me("a\tb")));
}

#[test]
fn decode_json_escapes() {
    assert_eq!(decode(r#"{"type":"Me","name":"a\nb"}"#), Ok(SocketMessage::me("a\nb")));
    assert_eq!(decode(r#"{"type":"Me","name":"\u0041\/"}"#), Ok(SocketMessage::me("A/")));
    assert_eq!(decode(r#"{"type":"Me","name":"\u001F"}"#), Ok(SocketMessage::me("\u{1f}")));
}

#[test]
fn decode_accepts_any_json_layout() {
    assert_eq!(decode(r#"{"type": "RequestMe"}"#), Ok(SocketMessage::RequestMe));
    assert_eq!(decode(" {\n \"type\" : \"RequestUsers\" } "), Ok(SocketMessage::RequestUsers));
    assert_eq!(
        decode(r#"{"name":"x","type":"SetName"}"#),
        Ok(SocketMessage::SetName { name: "x".to_string() })
    );
    assert_eq!(decode(r#"{"type":"Me","name":"a","extra":[1,2]}"#), Ok(SocketMessage::me("a")));
    assert_eq!(
        decode(r#"{"content":"hi","to":"bob","type":"Message","from":"alice"}"#),
        Ok(SocketMessage::message("alice", "bob", "hi"))
    );
    assert_eq!(
        decode(r#"{"type":"Error","err":{"code":3,"msg":"oops"}}"#),
        Ok(SocketMessage::error("oops"))
    );
}

#[test]
fn decode_invalid_json_string_is_error() {
    assert_eq!(decode("{\"type\":\"Me\",\"name\":\"a\nb\"}"), malformed());
    assert_eq!(decode(r#"{"type":"Me","name":"\u00"}"#), malformed());
    assert_eq!(decode(r#"["type","Me"]"#), malformed());
    assert_eq!(decode(r#"{"type":7}"#), malformed());
    assert_eq!(decode(r#"{"type":"Users","list":["a",1]}"#), malformed());
    assert_eq!(decode(r#"{"type":"Error","err":{"msg":5}}"#), malformed());
}
