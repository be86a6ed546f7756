use chat_core::presence::Presence;
use chat_core::protocol::{ClientMessage, ServerError, ServerMessage};
use chat_core::session::{handle_client_message, session_disconnect, Session};
use chat_core::storage::Store;
use chat_core::types::MessageRecipient;

fn request_username(name: &str) -> ClientMessage {
    ClientMessage::RequestUsername { username: name.to_string() }
}

#[test]
fn two_connections_one_username() {
    let mut store = Store::init(None).unwrap();
    let mut presence = Presence::new();

    // first connection logs in as alice and registers
    let mut first = Session::new();
    let eff = handle_client_message(
        &mut first,
        &mut store,
        &mut presence,
        request_username("alice"),
    )
    .unwrap();
    assert_eq!(first.user_id, Some(0));
    assert!(presence.is_online(0));
    assert_eq!(eff.reply.len(), 1);
    assert!(matches!(
        &eff.reply[0],
        ServerMessage::Welcome { user_id: 0, .. }
    ));
    // nobody else was online to broadcast to
    assert!(eff.channel.is_empty());

    // second connection asks for the same username and is rejected
    let mut second = Session::new();
    let r = handle_client_message(
        &mut second,
        &mut store,
        &mut presence,
        request_username("alice"),
    );
    assert!(matches!(r, Err(ServerError::UsernameInUse)));
    assert_eq!(second.user_id, None);
}

#[test]
fn invalid_username_is_rejected() {
    let mut store = Store::init(None).unwrap();
    let mut presence = Presence::new();
    let mut session = Session::new();

    let r = handle_client_message(
        &mut session,
        &mut store,
        &mut presence,
        request_username("bad name!"),
    );
    assert!(matches!(r, Err(ServerError::InvalidUsername)));
    assert_eq!(session.user_id, None);
    assert!(!presence.is_online(0));

    // underscores, letters and digits are fine
    let r = handle_client_message(
        &mut session,
        &mut store,
        &mut presence,
        request_username("user_42"),
    );
    assert!(r.is_ok());
    assert_eq!(session.user_id, Some(0));
}

#[test]
fn unauthenticated_requests_are_ignored() {
    let mut store = Store::init(None).unwrap();
    let mut presence = Presence::new();
    let mut session = Session::new();

    let eff = handle_client_message(
        &mut session,
        &mut store,
        &mut presence,
        ClientMessage::SendMessage {
            message: "hi".to_string(),
            recipient: MessageRecipient::User(0),
        },
    )
    .unwrap();
    assert!(eff.reply.is_empty() && eff.channel.is_empty());
    assert_eq!(session.user_id, None);
    assert_eq!(store.message_count().unwrap(), 0);
}

#[test]
fn self_message_is_rejected() {
    let mut store = Store::init(None).unwrap();
    let mut presence = Presence::new();
    let mut session = Session::new();
    handle_client_message(&mut session, &mut store, &mut presence, request_username("me"))
        .unwrap();

    let r = handle_client_message(
        &mut session,
        &mut store,
        &mut presence,
        ClientMessage::SendMessage {
            message: "hi".to_string(),
            recipient: MessageRecipient::User(0),
        },
    );
    assert!(matches!(r, Err(ServerError::SelfMessage)));
    assert_eq!(store.message_count().unwrap(), 0);
}

#[test]
fn login_broadcast_and_message_delivery() {
    let mut store = Store::init(None).unwrap();
    let mut presence = Presence::new();

    let mut alice = Session::new();
    handle_client_message(&mut alice, &mut store, &mut presence, request_username("alice"))
        .unwrap();

    // bob's login is announced to alice as a brand-new user
    let mut bob = Session::new();
    let eff =
        handle_client_message(&mut bob, &mut store, &mut presence, request_username("bob"))
            .unwrap();
    assert_eq!(bob.user_id, Some(1));
    assert_eq!(eff.channel.len(), 1);
    assert_eq!(eff.channel[0].0, 0);
    assert!(matches!(&eff.channel[0].1, ServerMessage::UserAdded { user } if user.id == 1));
    // the welcome lists alice with her online flag
    match &eff.reply[0] {
        ServerMessage::Welcome { user_id, users, .. } => {
            assert_eq!(*user_id, 1);
            assert_eq!(users.len(), 1);
            assert_eq!(users[0].id, 0);
            assert_eq!(users[0].name, "alice");
            assert!(users[0].online);
        }
        other => panic!("expected a welcome, got {:?}", other),
    }

    // a direct message from bob reaches alice's channel and bob's socket
    let eff = handle_client_message(
        &mut bob,
        &mut store,
        &mut presence,
        ClientMessage::SendMessage {
            message: "hello alice".to_string(),
            recipient: MessageRecipient::User(0),
        },
    )
    .unwrap();
    assert_eq!(eff.reply.len(), 1);
    assert_eq!(eff.channel.len(), 1);
    assert_eq!(eff.channel[0].0, 0);
    assert!(matches!(
        &eff.channel[0].1,
        ServerMessage::MessageSent { message } if message.message.message == "hello alice"
    ));

    // disconnecting bob unregisters him and tells alice
    let eff = session_disconnect(&mut bob, &mut presence);
    assert_eq!(bob.user_id, None);
    assert!(!presence.is_online(1));
    assert_eq!(eff.channel.len(), 1);
    assert_eq!(eff.channel[0].0, 0);
    assert!(matches!(&eff.channel[0].1, ServerMessage::UserOffline { id: 1 }));

    // a returning user is announced as coming online, not added
    let mut bob2 = Session::new();
    let eff =
        handle_client_message(&mut bob2, &mut store, &mut presence, request_username("bob"))
            .unwrap();
    assert_eq!(bob2.user_id, Some(1));
    assert!(matches!(&eff.channel[0].1, ServerMessage::UserOnline { id: 1 }));
}

#[test]
fn group_message_fanout() {
    let mut store = Store::init(None).unwrap();
    let mut presence = Presence::new();

    let mut alice = Session::new();
    let mut bob = Session::new();
    let mut carol = Session::new();
    handle_client_message(&mut alice, &mut store, &mut presence, request_username("alice"))
        .unwrap();
    handle_client_message(&mut bob, &mut store, &mut presence, request_username("bob"))
        .unwrap();
    handle_client_message(&mut carol, &mut store, &mut presence, request_username("carol"))
        .unwrap();

    // group of alice and bob; carol goes offline
    store
        .create_update_group("pair".to_string(), vec![0, 1], None, 0)
        .unwrap();
    session_disconnect(&mut carol, &mut presence);

    let eff = handle_client_message(
        &mut alice,
        &mut store,
        &mut presence,
        ClientMessage::SendMessage {
            message: "to the group".to_string(),
            recipient: MessageRecipient::Group(0),
        },
    )
    .unwrap();
    // both online members get it on their channels (the sender included),
    // nobody else
    assert!(eff.reply.is_empty());
    let mut targets: Vec<u16> = eff.channel.iter().map(|p| p.0).collect();
    targets.sort_unstable();
    assert_eq!(targets, vec![0, 1]);

    // second RequestUsername on a live session is a silent no-op
    let eff = handle_client_message(
        &mut alice,
        &mut store,
        &mut presence,
        request_username("someone_else"),
    )
    .unwrap();
    assert!(eff.reply.is_empty() && eff.channel.is_empty());
    assert_eq!(alice.user_id, Some(0));
}

#[test]
fn get_messages_and_edits_flow() {
    let mut store = Store::init(None).unwrap();
    let mut presence = Presence::new();

    let mut alice = Session::new();
    let mut bob = Session::new();
    handle_client_message(&mut alice, &mut store, &mut presence, request_username("alice"))
        .unwrap();
    handle_client_message(&mut bob, &mut store, &mut presence, request_username("bob"))
        .unwrap();

    handle_client_message(
        &mut alice,
        &mut store,
        &mut presence,
        ClientMessage::SendMessage {
            message: "first".to_string(),
            recipient: MessageRecipient::User(1),
        },
    )
    .unwrap();

    // bob edits nothing of alice's message: the store refuses
    let r = handle_client_message(
        &mut bob,
        &mut store,
        &mut presence,
        ClientMessage::EditMessage { id: 0, new_message: "hacked".to_string() },
    );
    assert!(matches!(r, Err(ServerError::StoreError(_))));

    // alice edits her own message; bob is notified
    let eff = handle_client_message(
        &mut alice,
        &mut store,
        &mut presence,
        ClientMessage::EditMessage { id: 0, new_message: "first, edited".to_string() },
    )
    .unwrap();
    assert!(matches!(
        &eff.channel[0].1,
        ServerMessage::MessageEdited { id: 0, message } if message == "first, edited"
    ));

    let eff = handle_client_message(
        &mut alice,
        &mut store,
        &mut presence,
        ClientMessage::EditTags { id: 0, new_tags: vec!["greeting".to_string()] },
    )
    .unwrap();
    assert!(matches!(
        &eff.channel[0].1,
        ServerMessage::MessageTagsEdited { id: 0, tags } if tags == &vec!["greeting".to_string()]
    ));

    // bob reads the conversation
    let eff = handle_client_message(
        &mut bob,
        &mut store,
        &mut presence,
        ClientMessage::GetMessages { recipient: MessageRecipient::User(0) },
    )
    .unwrap();
    match &eff.reply[0] {
        ServerMessage::MessagesForRecipient { recipient, messages } => {
            assert_eq!(*recipient, MessageRecipient::User(0));
            assert_eq!(messages.len(), 1);
            assert_eq!(messages[0].id, 0);
            assert_eq!(messages[0].message.message, "first, edited");
            assert_eq!(messages[0].message.tags, vec!["greeting".to_string()]);
        }
        other => panic!("expected messages, got {:?}", other),
    }

    // bob may delete a message addressed to him; alice is notified
    let eff = handle_client_message(
        &mut bob,
        &mut store,
        &mut presence,
        ClientMessage::DeleteMessage { id: 0 },
    )
    .unwrap();
    assert!(matches!(&eff.channel[0].1, ServerMessage::MessageDeleted { id: 0 }));
    assert_eq!(store.message_count().unwrap(), 0);
    assert_eq!(store.index_count().unwrap(), 0);
}

#[test]
fn welcome_lists_groups_with_member_names() {
    let mut store = Store::init(None).unwrap();
    let mut presence = Presence::new();

    let mut alice = Session::new();
    let mut bob = Session::new();
    handle_client_message(&mut alice, &mut store, &mut presence, request_username("alice"))
        .unwrap();
    handle_client_message(&mut bob, &mut store, &mut presence, request_username("bob"))
        .unwrap();
    store
        .create_update_group("pair".to_string(), vec![0, 1], None, 0)
        .unwrap();

    // bob drops and signs back in: his welcome carries the group, with
    // the member usernames resolved
    session_disconnect(&mut bob, &mut presence);
    let mut bob2 = Session::new();
    let eff =
        handle_client_message(&mut bob2, &mut store, &mut presence, request_username("bob"))
            .unwrap();
    match &eff.reply[0] {
        ServerMessage::Welcome { user_id, groups, .. } => {
            assert_eq!(*user_id, 1);
            assert_eq!(groups.len(), 1);
            assert_eq!(groups[0].id, 0);
            assert_eq!(groups[0].name, "pair");
            let mut names = groups[0].members.clone();
            names.sort();
            assert_eq!(names, vec!["alice".to_string(), "bob".to_string()]);
        }
        other => panic!("expected a welcome, got {:?}", other),
    }
}
