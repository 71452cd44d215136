use ws_chat::codec::{decode, encode};
use ws_chat::message::SocketMessage;
use ws_chat::server::{Action, WsServer};

fn frame(m: SocketMessage) -> String {
    encode(&m)
}

fn reply_of(a: Action) -> SocketMessage {
    match a {
        Action::Reply(f) => decode(&f).unwrap(),
        _ => panic!("expected a reply"),
    }
}

#[test]
fn spoofed_sender_is_restamped() {
    let mut server: WsServer<u32> = WsServer::new();
    let mut alice = server.open_connection(1, 100);
    let bob = server.open_connection(2, 200);
    let mut bob = bob;
    let users = &mut server.connected_users;
    alice.on_message(users, SocketMessage::SetName { name: "alice".to_string() });
    bob.on_message(users, SocketMessage::SetName { name: "bob".to_string() });
    let a = alice.on_frame(users, &frame(SocketMessage::message("mallory", "bob", "x")));
    match a {
        Action::Deliver { to, frame } => {
            assert_eq!(to, 2);
            assert_eq!(users.sender_of(to), Some(&200));
            assert_eq!(decode(&frame), Ok(SocketMessage::message("alice", "bob", "x")));
        }
        _ => panic!("expected a delivery"),
    }
}

#[test]
fn chat_scenario() {
    let mut server: WsServer<u32> = WsServer::new();
    let mut a = server.connection_made(100);
    assert_eq!(decode(&a.on_open()), Ok(SocketMessage::me("anon")));
    let users = &mut server.connected_users;
    let r = a.on_frame(users, r#"{"type":"SetName","name":"alice"}"#);
    assert!(matches!(r, Action::Nothing));
    assert_eq!(reply_of(a.on_frame(users, r#"{"type":"RequestMe"}"#)), SocketMessage::me("alice"));

    let mut b = server.connection_made(200);
    assert_ne!(a.id, b.id);
    assert_eq!(decode(&b.on_open()), Ok(SocketMessage::me("anon")));
    let users = &mut server.connected_users;
    assert!(matches!(b.on_frame(users, r#"{"type":"SetName","name":"bob"}"#), Action::Nothing));
    let sent = b.on_frame(
        users,
        r#"{"type":"Message","from":"bob","to":"alice","content":"hi"}"#,
    );
    match sent {
        Action::Deliver { to, frame } => {
            assert_eq!(to, a.id);
            assert_eq!(users.sender_of(to), Some(&100));
            assert_eq!(frame, r#"{"type":"Message","from":"bob","to":"alice","content":"hi"}"#);
        }
        _ => panic!("expected a delivery"),
    }
    let missing = b.on_frame(
        users,
        r#"{"type":"Message","from":"bob","to":"carol","content":"hi"}"#,
    );
    assert_eq!(reply_of(missing), SocketMessage::error("cannot find user"));
    assert_eq!(
        reply_of(b.on_frame(users, r#"{"type":"RequestUsers"}"#)),
        SocketMessage::Users { list: vec!["alice".to_string(), "bob".to_string()] }
    );
}

#[test]
fn message_to_disconnected_identity_is_error() {
    let mut server: WsServer<u32> = WsServer::new();
    let mut a = server.open_connection(1, 100);
    let mut b = server.open_connection(2, 200);
    a.on_message(&mut server.connected_users, SocketMessage::SetName { name: "alice".to_string() });
    b.on_message(&mut server.connected_users, SocketMessage::SetName { name: "bob".to_string() });
    server.connection_closed(&a);
    let r = b.on_message(&mut server.connected_users, SocketMessage::message("bob", "alice", "hi"));
    assert_eq!(reply_of(r), SocketMessage::error("cannot find user"));
    assert_eq!(server.connected_users.snapshot_identities(), vec!["bob".to_string()]);
}

#[test]
fn malformed_frame_is_answered_and_changes_nothing() {
    let mut server: WsServer<u32> = WsServer::new();
    let mut a = server.open_connection(1, 100);
    let r = a.on_frame(&mut server.connected_users, "not json");
    assert_eq!(reply_of(r), SocketMessage::error("serde_json::error::Error"));
    assert_eq!(a.username, "anon");
    assert_eq!(server.connected_users.snapshot_identities(), vec!["anon".to_string()]);
}

#[test]
fn outbound_only_variants_are_ignored() {
    let mut server: WsServer<u32> = WsServer::new();
    let mut a = server.open_connection(1, 100);
    let users = &mut server.connected_users;
    assert!(matches!(a.on_message(users, SocketMessage::me("x")), Action::Nothing));
    assert!(matches!(a.on_message(users, SocketMessage::error("x")), Action::Nothing));
    assert!(matches!(
        a.on_message(users, SocketMessage::Users { list: vec![] }),
        Action::Nothing
    ));
    assert_eq!(a.username, "anon");
}

#[test]
fn open_with_live_id_gets_fresh_id() {
    let mut server: WsServer<u32> = WsServer::new();
    assert_eq!(server.open_connection(1, 100).id, 1);
    let h = server.open_connection(1, 200);
    assert_eq!(h.id, 0);
    assert_eq!(h.username, "anon");
    assert_eq!(server.connected_users.len(), 2);
    assert_eq!(server.connected_users.sender_of(0), Some(&200));
}

#[test]
fn n_connections_give_n_distinct_entries() {
    let mut server: WsServer<u32> = WsServer::new();
    let mut ids = Vec::new();
    for k in 0..20u32 {
        let h = server.connection_made(k);
        assert!(!ids.contains(&h.id));
        ids.push(h.id);
    }
    assert_eq!(server.connected_users.len(), 20);
    let mut a = server.connection_made(99);
    let r = a.on_message(&mut server.connected_users, SocketMessage::RequestUsers);
    match reply_of(r) {
        SocketMessage::Users { list } => assert_eq!(list.len(), 21),
        _ => panic!("expected users"),
    }
    for (k, id) in ids.iter().enumerate() {
        assert_eq!(server.connected_users.sender_of(*id), Some(&(k as u32)));
    }
}
