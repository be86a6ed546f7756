use chat_core::storage::Store;
use chat_core::types::{Message, MessageRecipient, StoreError};

type Result<T = ()> = std::result::Result<T, StoreError>;

/// The member list of a group, in ascending order, for set-like
/// comparisons.
fn sorted(mut v: Vec<u16>) -> Vec<u16> {
    v.sort_unstable();
    v
}

fn groups_with_sorted_members(
    groups: Vec<(u16, (String, Vec<u16>))>,
) -> Vec<(u16, (String, Vec<u16>))> {
    groups
        .into_iter()
        .map(|(id, (name, members))| (id, (name, sorted(members))))
        .collect()
}

#[test]
fn add_users() -> Result {
    let mut store = Store::init(None)?;

    assert!(store.get_username_for_id(0)?.is_none());

    // add a user
    store.create_user("foobar".into())?;

    // make sure they exist
    assert_eq!(
        store.get_username_for_id(0)?.as_ref().map(|a| a.as_str()),
        Some("foobar")
    );
    assert_eq!(store.get_id_for_username("foobar")?, Some(0));

    // add another user
    store.create_user("foo".into())?;

    // make sure they exist
    assert_eq!(
        store.get_username_for_id(1)?.as_ref().map(|a| a.as_str()),
        Some("foo")
    );
    assert_eq!(store.get_id_for_username("foo")?, Some(1));

    // make sure you can't create a user with an existing username
    assert!(matches!(
        store.create_user("foo".into()),
        Err(StoreError::UsernameInUse)
    ));

    assert_eq!(
        store.list_users()?,
        vec![(0, "foobar".to_string()), (1, "foo".to_string())]
    );

    Ok(())
}

#[test]
fn add_groups() -> Result {
    let mut store = Store::init(None)?;

    store.create_user("foobar".into())?;

    // try creating the group with invalid users
    assert!(matches!(
        store.create_update_group("foo".into(), vec![0, 1], None, 0),
        Err(StoreError::InvalidUserIds)
    ));

    store.create_user("foo".into())?;

    store.create_update_group("foo".into(), vec![1, 0], None, 0)?;
    store.create_update_group("foobar".into(), vec![1], None, 1)?;

    let group_0 = (0, ("foo".to_string(), vec![0, 1]));
    let group_1 = (1, ("foobar".to_string(), vec![1]));

    // make sure we can read the groups for each user
    assert_eq!(
        groups_with_sorted_members(store.get_groups_for_user(0)?),
        vec![group_0.clone()]
    );
    assert_eq!(
        groups_with_sorted_members(store.get_groups_for_user(1)?),
        vec![group_0, group_1]
    );

    // delete a group
    assert!(matches!(
        // user 0 cannot delete group 1
        store.delete_group(1, 0),
        Err(StoreError::PermissionDenied)
    ));
    store.delete_group(0, 1)?;

    assert_eq!(store.get_groups_for_user(0)?, vec![]);

    // edit group 1
    assert!(matches!(
        // user 0 cannot edit group 1
        store.create_update_group("bar".into(), vec![0], Some(1), 0),
        Err(StoreError::PermissionDenied)
    ));
    store.create_update_group("bar".into(), vec![0], Some(1), 1)?;

    assert_eq!(
        groups_with_sorted_members(store.get_groups_for_user(0)?),
        vec![(1, ("bar".to_string(), vec![0]))]
    );
    assert_eq!(store.get_groups_for_user(1)?, vec![]);

    Ok(())
}

fn setup_messages_groups() -> Result<Store> {
    let mut store = Store::init(None)?;

    store.create_user("a".into())?;
    store.create_user("b".into())?;
    store.create_user("c".into())?;
    store.create_user("d".into())?;

    store.create_update_group("1".into(), vec![1, 3], None, 1)?;
    store.create_update_group("1".into(), vec![3, 2], None, 3)?;

    // make sure the sender/recipients are validated
    assert!(matches!(
        store.send_message("foo".into(), 4, MessageRecipient::User(1)),
        Err(StoreError::InvalidUserIds)
    ));
    assert!(matches!(
        store.send_message("foo".into(), 3, MessageRecipient::Group(2)),
        Err(StoreError::InvalidGroupId)
    ));
    assert!(matches!(
        store.send_message("foo".into(), 3, MessageRecipient::User(4)),
        Err(StoreError::InvalidUserIds)
    ));
    assert!(matches!(
        store.send_message("foo".into(), 0, MessageRecipient::Group(1)),
        Err(StoreError::PermissionDenied)
    ));

    assert!(matches!(
        store.send_message("hello".into(), 0, MessageRecipient::User(1))?.1,
        Message { sender: 0, recipient: MessageRecipient::User(1), message, .. } if &*message == "hello"
    ));

    store.send_message("hi".into(), 1, MessageRecipient::User(0))?;
    store.send_message("aaa".into(), 1, MessageRecipient::User(3))?;
    store.send_message("bbb".into(), 2, MessageRecipient::Group(1))?;
    store.send_message("ccc".into(), 3, MessageRecipient::Group(1))?;

    Ok(store)
}

#[test]
fn read_messages() -> Result {
    let store = setup_messages_groups()?;

    // messages sent from a to b should be equal to messages sent from b to a
    let messages_a_b = store.get_messages(0, MessageRecipient::User(1))?;
    let messages_b_a = store.get_messages(1, MessageRecipient::User(0))?;
    assert_eq!(messages_a_b, messages_b_a);

    // these messages should be different
    let messages_d_b = store.get_messages(3, MessageRecipient::User(1))?;
    assert_ne!(messages_a_b, messages_d_b);

    assert!(matches!(
        &messages_d_b[..],
        [(2, Message { sender: 1, recipient: MessageRecipient::User(3), message, .. })] if &*message == "aaa"
    ));

    // users not in a group can't read the group messages
    assert!(matches!(
        store.get_messages(1, MessageRecipient::Group(1)),
        Err(StoreError::PermissionDenied)
    ));
    // group does not exist
    assert!(matches!(
        store.get_messages(1, MessageRecipient::Group(2)),
        Err(StoreError::InvalidGroupId)
    ));

    assert_eq!(store.get_messages(1, MessageRecipient::Group(0))?, vec![]);

    let group_messages_c = store.get_messages(2, MessageRecipient::Group(1))?;
    let group_messages_d = store.get_messages(3, MessageRecipient::Group(1))?;
    assert_eq!(group_messages_c, group_messages_d);

    Ok(())
}

fn assert_message_count(store: &Store, count: u16) -> Result {
    let message_count = store.message_count()?;
    let message_endpoint_count = store.index_count()?;
    // make sure they're in sync
    assert_eq!(message_count, message_endpoint_count);
    assert_eq!(message_count as u16, count);

    Ok(())
}

#[test]
fn delete_group_messages() -> Result {
    let mut store = setup_messages_groups()?;

    assert_message_count(&store, 5)?;

    // users that aren't in a group can't delete it
    assert!(matches!(
        store.delete_group(0, 2),
        Err(StoreError::PermissionDenied)
    ));
    store.delete_group(0, 1)?;

    assert_message_count(&store, 5)?;

    // delete the group with two messages
    store.delete_group(1, 2)?;
    assert_message_count(&store, 3)?;

    Ok(())
}

#[test]
fn delete_messages() -> Result {
    let mut store = setup_messages_groups()?;

    assert_message_count(&store, 5)?;
    assert!(matches!(
        store.delete_message(5, 0),
        Err(StoreError::InvalidMessageId)
    ));
    assert!(matches!(
        store.delete_message(4, 0),
        Err(StoreError::PermissionDenied)
    ));

    store.delete_message(4, 2)?;
    store.delete_message(1, 0)?;
    store.delete_message(2, 1)?;

    assert_message_count(&store, 2)?;

    Ok(())
}

#[test]
fn ids_are_dense_and_increasing() -> Result {
    let mut store = Store::init(None)?;

    // consecutive creates receive 0, 1, 2, ..
    assert_eq!(store.create_user("a".into())?, 0);
    assert_eq!(store.create_user("b".into())?, 1);
    assert_eq!(store.create_user("c".into())?, 2);

    assert_eq!(store.create_update_group("g0".into(), vec![0], None, 0)?, 0);
    assert_eq!(store.create_update_group("g1".into(), vec![1], None, 1)?, 1);

    let (id0, _) = store.send_message("x".into(), 0, MessageRecipient::User(1))?;
    let (id1, _) = store.send_message("y".into(), 1, MessageRecipient::User(0))?;
    assert_eq!(id0, 0);
    assert_eq!(id1, 1);

    // a deletion leaves a gap; the next id is still one past the maximum
    store.delete_message(0, 0)?;
    let (id2, _) = store.send_message("z".into(), 0, MessageRecipient::User(1))?;
    assert_eq!(id2, 2);

    Ok(())
}

#[test]
fn failed_create_leaves_users_unchanged() -> Result {
    let mut store = Store::init(None)?;

    store.create_user("alice".into())?;
    store.create_user("bob".into())?;
    let before = store.list_users()?;

    assert!(matches!(
        store.create_user("alice".into()),
        Err(StoreError::UsernameInUse)
    ));

    assert_eq!(store.list_users()?, before);
    Ok(())
}

#[test]
fn cascade_leaves_other_recipients_untouched() -> Result {
    let mut store = setup_messages_groups()?;

    // deleting group 1 removes its two messages ..
    store.delete_group(1, 2)?;
    assert_message_count(&store, 3)?;
    assert_eq!(store.get_messages(2, MessageRecipient::Group(1)).is_err(), true);

    // .. but direct messages survive untouched
    let a_b = store.get_messages(0, MessageRecipient::User(1))?;
    assert_eq!(a_b.len(), 2);
    assert_eq!(a_b[0].1.message, "hello");
    assert_eq!(a_b[1].1.message, "hi");
    let b_d = store.get_messages(1, MessageRecipient::User(3))?;
    assert_eq!(b_d.len(), 1);
    assert_eq!(b_d[0].1.message, "aaa");

    Ok(())
}

#[test]
fn edit_message_body_and_tags() -> Result {
    let mut store = setup_messages_groups()?;

    // only the sender may edit
    assert!(matches!(
        store.edit_message_body(0, "changed".into(), 1),
        Err(StoreError::PermissionDenied)
    ));
    assert!(matches!(
        store.edit_message_tags(0, vec!["t".into()], 1),
        Err(StoreError::PermissionDenied)
    ));
    assert!(matches!(
        store.edit_message_body(9, "changed".into(), 0),
        Err(StoreError::InvalidMessageId)
    ));

    // message 0 is "hello" from 0 to user 1
    let edited = store.edit_message_body(0, "changed".into(), 0)?;
    assert_eq!(edited.message, "changed");
    let tagged = store.edit_message_tags(0, vec!["one".into(), "two".into()], 0)?;
    assert_eq!(tagged.tags, vec!["one".to_string(), "two".to_string()]);

    let a_b = store.get_messages(0, MessageRecipient::User(1))?;
    assert_eq!(a_b[0].1.message, "changed");
    assert_eq!(a_b[0].1.tags, vec!["one".to_string(), "two".to_string()]);
    // time, sender and recipient are untouched
    assert_eq!(a_b[0].1.sender, 0);
    assert_eq!(a_b[0].1.recipient, MessageRecipient::User(1));

    // the index entry stayed in sync
    assert_message_count(&store, 5)?;

    Ok(())
}

#[test]
fn empty_store_reads() -> Result {
    let store = Store::init(None)?;

    assert_eq!(store.list_users()?, vec![]);
    assert_eq!(store.get_username_for_id(0)?, None);
    assert_eq!(store.get_id_for_username("nobody")?, None);
    assert_eq!(store.get_group_members(0)?, None);
    assert_eq!(store.get_messages(0, MessageRecipient::User(1))?, vec![]);
    assert_eq!(store.message_count()?, 0);
    assert_eq!(store.index_count()?, 0);

    Ok(())
}

#[test]
fn group_scoped_reads_are_permission_checked() -> Result {
    let mut store = Store::init(None)?;
    store.create_user("a".into())?;
    store.create_user("b".into())?;
    store.create_update_group("g".into(), vec![1], None, 1)?;

    // not a member: denied; absent group: invalid
    assert!(matches!(
        store.get_messages(0, MessageRecipient::Group(0)),
        Err(StoreError::PermissionDenied)
    ));
    assert!(matches!(
        store.get_messages(0, MessageRecipient::Group(7)),
        Err(StoreError::InvalidGroupId)
    ));
    assert!(matches!(
        store.delete_group(0, 0),
        Err(StoreError::PermissionDenied)
    ));
    assert!(matches!(
        store.delete_group(7, 0),
        Err(StoreError::InvalidGroupId)
    ));
    assert!(matches!(
        store.create_update_group("h".into(), vec![0], Some(0), 0),
        Err(StoreError::PermissionDenied)
    ));
    assert!(matches!(
        store.create_update_group("h".into(), vec![0], Some(7), 0),
        Err(StoreError::InvalidGroupId)
    ));

    Ok(())
}

#[test]
fn group_direct_and_cascade_scenario() -> Result {
    let mut store = Store::init(None)?;

    assert_eq!(store.create_user("a".into())?, 0);
    assert_eq!(store.create_user("b".into())?, 1);
    assert_eq!(store.create_user("c".into())?, 2);
    assert_eq!(store.create_user("d".into())?, 3);

    assert_eq!(store.create_update_group("grp".into(), vec![1, 3], None, 1)?, 0);

    let (id, sent) = store.send_message("hi".into(), 0, MessageRecipient::User(1))?;
    assert_eq!(sent.sender, 0);
    assert_eq!(sent.recipient, MessageRecipient::User(1));
    assert_eq!(sent.message, "hi");

    let from_a = store.get_messages(0, MessageRecipient::User(1))?;
    let from_b = store.get_messages(1, MessageRecipient::User(0))?;
    assert_eq!(from_a, from_b);
    assert_eq!(from_a.len(), 1);
    assert_eq!(from_a[0].0, id);
    assert_eq!(from_a[0].1.sender, 0);
    assert_eq!(from_a[0].1.recipient, MessageRecipient::User(1));
    assert_eq!(from_a[0].1.message, "hi");

    assert!(matches!(
        store.send_message("x".into(), 2, MessageRecipient::Group(0)),
        Err(StoreError::PermissionDenied)
    ));

    store.send_message("to group".into(), 1, MessageRecipient::Group(0))?;
    store.delete_group(0, 1)?;
    // the group's messages went with it; direct messages survived
    assert_message_count(&store, 1)?;
    assert!(matches!(
        store.delete_group(0, 1),
        Err(StoreError::InvalidGroupId)
    ));

    Ok(())
}
