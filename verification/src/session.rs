//! The connection actor's decision core: a session is either
//! unauthenticated or bound to a user id; each inbound request maps to
//! store operations and to the events that must reach the caller and the
//! other live connections. The embedding process runs the socket loop,
//! performs the sends this module decides on, and calls
//! [`session_disconnect`] when the loop exits, however it exits.

use vstd::prelude::*;

use crate::model::{is_next_key, valid_username, valid_username_char};
use crate::presence::Presence;
use crate::protocol::{
    ClientMessage, EventView, MessageWithId, ServerError, ServerGroup, ServerMessage, ServerUser,
};
use crate::storage::Store;
use crate::types::{Message, MessageRecipient, MsgView};

verus! {

/// One connection's authentication state: unauthenticated, or bound to a
/// user id until disconnect.
pub struct Session {
    pub user_id: Option<u16>,
}

impl Session {
    pub fn new() -> (s: Session)
        ensures
            s.user_id is None,
    {
        Session { user_id: None }
    }
}

/// What a handled request asks the embedding process to send: events for
/// the requesting client's own socket, and events to push onto other
/// users' delivery channels.
pub struct Effects {
    pub reply: Vec<ServerMessage>,
    pub channel: Vec<(u16, ServerMessage)>,
}

impl Effects {
    pub open spec fn reply_views(self) -> Seq<EventView> {
        self.reply@.map_values(|e: ServerMessage| e@)
    }

    pub open spec fn channel_views(self) -> Seq<(u16, EventView)> {
        self.channel@.map_values(|p: (u16, ServerMessage)| (p.0, p.1@))
    }

    pub open spec fn is_empty(self) -> bool {
        self.reply@.len() == 0 && self.channel@.len() == 0
    }

    pub fn none() -> (e: Effects)
        ensures
            e.is_empty(),
    {
        Effects { reply: Vec::new(), channel: Vec::new() }
    }
}

/// Whether `eff` delivers exactly the event `ev` to the right parties for
/// `recipient`: for a user recipient, to the caller's own socket and, if
/// that user is online, to their channel; for a group recipient, to the
/// channel of every online member (the caller among them), and to nobody
/// else.
pub open spec fn delivered_to_recipient(
    eff: Effects,
    online: Set<u16>,
    groups: Map<u16, crate::model::GroupView>,
    recipient: MessageRecipient,
    ev: EventView,
) -> bool {
    match recipient {
        MessageRecipient::User(b) => {
            &&& eff.reply_views() =~= seq![ev]
            &&& online.contains(b) ==> eff.channel_views() =~= seq![(b, ev)]
            &&& !online.contains(b) ==> eff.channel@.len() == 0
        },
        MessageRecipient::Group(g) => {
            &&& eff.reply@.len() == 0
            &&& forall|j: int|
                0 <= j < eff.channel@.len() ==> ((#[trigger] eff.channel_views()[j]).1 == ev
                    && groups.dom().contains(g) && groups[g].members.contains(
                    eff.channel_views()[j].0,
                ) && online.contains(eff.channel_views()[j].0))
            &&& forall|u: u16|
                groups.dom().contains(g) && (#[trigger] groups[g].members.contains(u))
                    && online.contains(u) ==> exists|j: int|
                    0 <= j < eff.channel@.len() && (#[trigger] eff.channel_views()[j]).0 == u
        },
    }
}

/// Whether every character of `s` is an ASCII letter, digit or
/// underscore.
pub fn username_is_valid(s: &str) -> (r: bool)
    ensures
        r == valid_username(s@),
{
    let n = s.unicode_len();
    let mut i: usize = 0;
    while i < n
        invariant
            n == s@.len(),
            0 <= i <= n,
            forall|j: int| 0 <= j < i ==> valid_username_char(#[trigger] s@[j]),
        decreases n - i,
    {
        let c = s.get_char(i);
        let ok = ('a' <= c && c <= 'z') || ('A' <= c && c <= 'Z') || ('0' <= c && c <= '9') || c
            == '_';
        if !ok {
            return false;
        }
        i += 1;
    }
    true
}

/// A copy of a string list, value by value.
fn clone_strings(v: &Vec<String>) -> (r: Vec<String>)
    ensures
        r@ == v@,
{
    let mut out: Vec<String> = Vec::new();
    let mut i: usize = 0;
    while i < v.len()
        invariant
            0 <= i <= v@.len(),
            out@ == v@.subrange(0, i as int),
        decreases v@.len() - i,
    {
        out.push(v[i].clone());
        proof {
            assert(out@ =~= v@.subrange(0, i + 1 as int));
        }
        i += 1;
    }
    proof {
        assert(v@.subrange(0, v@.len() as int) =~= v@);
    }
    out
}

/// A copy of a message, field by field.
fn clone_message(m: &Message) -> (r: Message)
    ensures
        r@ == m@,
{
    let r = Message {
        sender: m.sender,
        recipient: m.recipient,
        message: m.message.clone(),
        time: m.time,
        tags: clone_strings(&m.tags),
    };
    proof {
        assert(r@ =~= m@);
    }
    r
}

fn clone_server_user(u: &ServerUser) -> (r: ServerUser)
    ensures
        r == *u,
{
    ServerUser { id: u.id, name: u.name.clone(), online: u.online }
}

fn clone_server_users(v: &Vec<ServerUser>) -> (r: Vec<ServerUser>)
    ensures
        r@ == v@,
{
    let mut out: Vec<ServerUser> = Vec::new();
    let mut i: usize = 0;
    while i < v.len()
        invariant
            0 <= i <= v@.len(),
            out@ == v@.subrange(0, i as int),
        decreases v@.len() - i,
    {
        out.push(clone_server_user(&v[i]));
        proof {
            assert(out@ =~= v@.subrange(0, i + 1 as int));
        }
        i += 1;
    }
    proof {
        assert(v@.subrange(0, v@.len() as int) =~= v@);
    }
    out
}

fn clone_server_group(g: &ServerGroup) -> (r: ServerGroup)
    ensures
        r@ == g@,
{
    let r = ServerGroup { id: g.id, name: g.name.clone(), members: clone_strings(&g.members) };
    proof {
        assert(r@ =~= g@);
    }
    r
}

fn clone_server_groups(v: &Vec<ServerGroup>) -> (r: Vec<ServerGroup>)
    ensures
        r@.map_values(|g: ServerGroup| g@) == v@.map_values(|g: ServerGroup| g@),
{
    let mut out: Vec<ServerGroup> = Vec::new();
    let mut i: usize = 0;
    while i < v.len()
        invariant
            0 <= i <= v@.len(),
            out@.len() == i,
            forall|j: int| 0 <= j < i ==> (#[trigger] out@[j])@ == v@[j]@,
        decreases v@.len() - i,
    {
        out.push(clone_server_group(&v[i]));
        i += 1;
    }
    proof {
        assert(out@.map_values(|g: ServerGroup| g@) =~= v@.map_values(|g: ServerGroup| g@));
    }
    out
}

fn clone_messages_with_id(v: &Vec<MessageWithId>) -> (r: Vec<MessageWithId>)
    ensures
        r@.map_values(|m: MessageWithId| m@) == v@.map_values(|m: MessageWithId| m@),
{
    let mut out: Vec<MessageWithId> = Vec::new();
    let mut i: usize = 0;
    while i < v.len()
        invariant
            0 <= i <= v@.len(),
            out@.len() == i,
            forall|j: int| 0 <= j < i ==> (#[trigger] out@[j])@ == v@[j]@,
        decreases v@.len() - i,
    {
        out.push(MessageWithId { id: v[i].id, message: clone_message(&v[i].message) });
        i += 1;
    }
    proof {
        assert(out@.map_values(|m: MessageWithId| m@) =~= v@.map_values(|m: MessageWithId| m@));
    }
    out
}

/// A copy of an event, value by value.
fn clone_event(ev: &ServerMessage) -> (r: ServerMessage)
    ensures
        r@ == ev@,
{
    let r = match ev {
        ServerMessage::Error { err } => ServerMessage::Error { err: err.clone() },
        ServerMessage::Welcome { user_id, users, groups } => ServerMessage::Welcome {
            user_id: *user_id,
            users: clone_server_users(users),
            groups: clone_server_groups(groups),
        },
        ServerMessage::UserAdded { user } => ServerMessage::UserAdded {
            user: clone_server_user(user),
        },
        ServerMessage::UserOnline { id } => ServerMessage::UserOnline { id: *id },
        ServerMessage::UserOffline { id } => ServerMessage::UserOffline { id: *id },
        ServerMessage::MessagesForRecipient { recipient, messages } => (
        ServerMessage::MessagesForRecipient {
            recipient: *recipient,
            messages: clone_messages_with_id(messages),
        }),
        ServerMessage::MessageSent { message } => ServerMessage::MessageSent {
            message: MessageWithId { id: message.id, message: clone_message(&message.message) },
        },
        ServerMessage::MessageEdited { id, message } => ServerMessage::MessageEdited {
            id: *id,
            message: message.clone(),
        },
        ServerMessage::MessageTagsEdited { id, tags } => ServerMessage::MessageTagsEdited {
            id: *id,
            tags: clone_strings(tags),
        },
        ServerMessage::MessageDeleted { id } => ServerMessage::MessageDeleted { id: *id },
        ServerMessage::GroupAdded { group } => ServerMessage::GroupAdded {
            group: clone_server_group(group),
        },
        ServerMessage::GroupEdited { group } => ServerMessage::GroupEdited {
            group: clone_server_group(group),
        },
        ServerMessage::GroupDeleted { id } => ServerMessage::GroupDeleted { id: *id },
    };
    proof {
        assert(r@ =~= ev@);
    }
    r
}

/// Resolve who must see `ev` for `recipient` and lay the sends out: the
/// caller's own socket plus the recipient's channel for a user recipient,
/// the channels of every online member for a group recipient (membership
/// read back from the store).
fn deliver_to_recipient(
    store: &Store,
    presence: &Presence,
    ev: ServerMessage,
    recipient: MessageRecipient,
) -> (r: Result<Effects, ServerError>)
    ensures
        recipient is User ==> r is Ok,
        r matches Ok(eff) ==> delivered_to_recipient(
            eff,
            presence.view(),
            store.model().groups,
            recipient,
            ev@,
        ),
        r matches Err(e) ==> e is StoreError,
{
    match recipient {
        MessageRecipient::User(user_id) => {
            let mut channel: Vec<(u16, ServerMessage)> = Vec::new();
            if presence.is_online(user_id) {
                channel.push((user_id, clone_event(&ev)));
            }
            let mut reply: Vec<ServerMessage> = Vec::new();
            reply.push(ev);
            let eff = Effects { reply, channel };
            proof {
                assert(eff.reply_views() =~= seq![eff.reply@[0]@]);
                if presence.view().contains(user_id) {
                    assert(eff.channel_views() =~= seq![(user_id, eff.channel@[0].1@)]);
                }
            }
            Ok(eff)
        },
        MessageRecipient::Group(group_id) => {
            let members = match store.get_group_members(group_id) {
                Err(e) => {
                    return Err(ServerError::StoreError(e));
                },
                Ok(v) => v,
            };
            let mut channel: Vec<(u16, ServerMessage)> = Vec::new();
            match members {
                None => {},
                Some(mem) => {
                    let mut i: usize = 0;
                    while i < mem.len()
                        invariant
                            0 <= i <= mem@.len(),
                            mem@ == store.model().groups[group_id].members,
                            store.model().groups.dom().contains(group_id),
                            forall|j: int|
                                0 <= j < channel@.len() ==> ((#[trigger] channel@[j]).1@ == ev@
                                    && mem@.contains(channel@[j].0) && presence.view().contains(
                                    channel@[j].0,
                                )),
                            forall|y: int|
                                0 <= y < i && presence.view().contains(#[trigger] mem@[y])
                                    ==> exists|j: int|
                                    0 <= j < channel@.len() && (#[trigger] channel@[j]).0
                                        == mem@[y],
                        decreases mem@.len() - i,
                    {
                        let ghost old_channel = channel@;
                        let member = mem[i];
                        if presence.is_online(member) {
                            channel.push((member, clone_event(&ev)));
                            proof {
                                assert((#[trigger] channel@[channel@.len() - 1]).0 == member);
                                assert(forall|j: int|
                                    0 <= j < old_channel.len() ==> #[trigger] channel@[j]
                                        == old_channel[j]);
                            }
                        }
                        proof {
                            assert forall|y: int|
                                0 <= y < i + 1 && presence.view().contains(#[trigger] mem@[y])
                                implies exists|j: int|
                                0 <= j < channel@.len() && (#[trigger] channel@[j]).0 == mem@[y] by {
                                if y < i {
                                    let j0 = choose|j: int|
                                        0 <= j < old_channel.len() && (#[trigger] old_channel[j]).0
                                            == mem@[y];
                                    assert((channel@[j0]).0 == mem@[y]);
                                } else {
                                    assert((channel@[channel@.len() - 1]).0 == mem@[y]);
                                }
                            }
                        }
                        i += 1;
                    }
                },
            }
            let eff = Effects { reply: Vec::new(), channel };
            proof {
                assert forall|u: u16|
                    store.model().groups.dom().contains(group_id) && (
                    #[trigger] store.model().groups[group_id].members.contains(u))
                        && presence.view().contains(u) implies exists|j: int|
                    0 <= j < eff.channel@.len() && (#[trigger] eff.channel_views()[j]).0 == u by {
                    let mem = store.model().groups[group_id].members;
                    let y = choose|y: int| 0 <= y < mem.len() && mem[y] == u;
                    let j = choose|j: int|
                        0 <= j < eff.channel@.len() && (#[trigger] eff.channel@[j]).0 == mem[y];
                    assert((eff.channel_views()[j]).0 == u);
                }
                assert forall|j: int| 0 <= j < eff.channel@.len() implies ((
                #[trigger] eff.channel_views()[j]).1 == ev@ && store.model().groups.dom().contains(
                    group_id,
                ) && store.model().groups[group_id].members.contains(eff.channel_views()[j].0)
                    && presence.view().contains(eff.channel_views()[j].0)) by {
                    assert((eff.channel@[j]).1@ == ev@);
                }
            }
            Ok(eff)
        },
    }
}

/// The welcome's user list: every user but the newly signed-in one,
/// each exactly once with its stored name and its online flag.
pub open spec fn welcome_users_listed(
    users: Map<u16, Seq<char>>,
    online: Set<u16>,
    uid: u16,
    s: Seq<crate::protocol::ServerUserView>,
) -> bool {
    &&& forall|i: int|
        0 <= i < s.len() ==> users.contains_pair((#[trigger] s[i]).id, s[i].name) && s[i].id != uid
            && s[i].online == online.contains(s[i].id)
    &&& forall|k: u16|
        #[trigger] users.dom().contains(k) && k != uid ==> exists|i: int|
            0 <= i < s.len() && (#[trigger] s[i]).id == k
}

/// The welcome's group list: every group the new user belongs to, each
/// exactly once under its stored name.
pub open spec fn welcome_groups_listed(
    groups: Map<u16, crate::model::GroupView>,
    uid: u16,
    s: Seq<crate::protocol::ServerGroupView>,
) -> bool {
    &&& forall|i: int|
        0 <= i < s.len() ==> groups.dom().contains((#[trigger] s[i]).id)
            && groups[s[i].id].members.contains(uid) && s[i].name == groups[s[i].id].name
    &&& forall|g: u16|
        #[trigger] groups.dom().contains(g) && groups[g].members.contains(uid) ==> exists|i: int|
            0 <= i < s.len() && (#[trigger] s[i]).id == g
}

/// Handle one inbound request, in arrival order, and decide everything
/// that must happen for it: the store transaction, the change to the
/// presence registry, and the events for the caller and for other live
/// sessions. Errors are returned to the embedding process, which reports
/// them to the caller alone as an `Error` event; they never touch other
/// connections.
///
/// Before authentication only `RequestUsername` is acted on; every other
/// request is ignored (not a protocol error). A second `RequestUsername`
/// after authentication is likewise a no-op. Group management requests
/// are accepted and ignored rather than answered. If a failure
/// strikes while the welcome data is being read back, the session stays
/// authenticated and registered, and only the caller learns of the error.
#[verifier::loop_isolation(false)]
pub fn handle_client_message(
    session: &mut Session,
    store: &mut Store,
    presence: &mut Presence,
    msg: ClientMessage,
) -> (r: Result<Effects, ServerError>)
    requires
        old(store).wf(),
        old(presence).wf(),
    ensures
        final(store).wf(),
        final(presence).wf(),
        old(session).user_id is Some ==> final(session).user_id == old(session).user_id && final(presence).view() == old(presence).view(),
        // Ignored requests change nothing and produce nothing.
        (old(session).user_id is None && !(msg matches ClientMessage::RequestUsername { .. })) ==> (
        r matches Ok(eff) && eff.is_empty() && final(session).user_id is None && final(store).model() == old(store).model() && final(presence).view() == old(presence).view()),
        (old(session).user_id is Some && msg matches ClientMessage::RequestUsername { .. }) ==> (
        r matches Ok(eff) && eff.is_empty() && final(store).model() == old(store).model()),
        (msg matches ClientMessage::CreateGroup { .. } || msg matches ClientMessage::EditGroup {
            ..
        } || msg matches ClientMessage::DeleteGroup { .. }) ==> (r matches Ok(eff)
            && eff.is_empty() && final(store).model() == old(store).model() && final(presence).view() == old(presence).view()),
        // Authentication. An invalid username is rejected before anything
        // is read or written.
        old(session).user_id is None ==> (msg matches ClientMessage::RequestUsername { username }
            ==> (!valid_username(username@) ==> (r matches Err(e) && e is InvalidUsername
                && final(store).model() == old(store).model() && final(presence).view() == old(
                presence,
            ).view() && final(session).user_id is None))),
        old(session).user_id is None ==> (msg matches ClientMessage::RequestUsername { username }
            ==> match r {
            Ok(eff) => valid_username(username@) && final(session).user_id is Some && (final(session).user_id matches Some(uid) ==> {
                &&& final(presence).view() == old(presence).view().insert(uid)
                &&& final(store).model().rev.contains_pair(username@, uid)
                &&& old(store).model().rev.dom().contains(username@) ==> (final(store).model()
                    == old(store).model() && old(store).model().rev.contains_pair(username@, uid)
                    && !old(presence).view().contains(uid))
                &&& !old(store).model().rev.dom().contains(username@) ==> (final(store).model()
                    == crate::model::create_user_tr(old(store).model(), username@, uid)
                    && is_next_key(old(store).model().users.dom(), uid))
                &&& eff.reply@.len() == 1
                &&& (eff.reply@[0]@ matches EventView::Welcome { user_id, users, groups }
                    && user_id == uid && welcome_users_listed(
                    final(store).model().users,
                    final(presence).view(),
                    uid,
                    users,
                ) && welcome_groups_listed(final(store).model().groups, uid, groups))
                &&& eff.channel@.len() == old(presence).ids@.len()
                &&& forall|j: int|
                    0 <= j < eff.channel@.len() ==> (#[trigger] eff.channel@[j]).0 == old(
                        presence,
                    ).ids@[j] && eff.channel@[j].1@ == (if old(
                        store,
                    ).model().rev.dom().contains(username@) {
                        EventView::UserOnline { id: uid }
                    } else {
                        EventView::UserAdded {
                            user: (crate::protocol::ServerUserView {
                                id: uid,
                                name: username@,
                                online: true,
                            }),
                        }
                    })
            }),
            Err(e) => (e is InvalidUsername ==> !valid_username(username@) && final(session).user_id is None && final(store).model() == old(store).model() && final(presence).view() == old(presence).view()) && (e is UsernameInUse ==> (old(
                store,
            ).model().rev.dom().contains(username@) && old(presence).view().contains(
                old(store).model().rev[username@],
            ) && final(session).user_id is None && final(store).model() == old(store).model()
                && final(presence).view() == old(presence).view())) && (e is InvalidUsername
                || e is UsernameInUse || e is StoreError),
        }),
        // Message queries.
        old(session).user_id matches Some(uid) ==> (msg matches ClientMessage::GetMessages {
            recipient,
        } ==> match r {
            Ok(eff) => final(store).model() == old(store).model() && eff.channel@.len() == 0
                && eff.reply@.len() == 1 && (recipient matches MessageRecipient::User(b)
                ==> eff.reply@[0]@ == (EventView::MessagesForRecipient {
                recipient,
                messages: crate::model::user_messages_spec(old(store).model(), uid, b),
            })) && (recipient matches MessageRecipient::Group(g) ==> (old(
                store,
            ).model().groups.dom().contains(g) && old(store).model().groups[g].members.contains(
                uid,
            ) && eff.reply@[0]@ == (EventView::MessagesForRecipient {
                recipient,
                messages: crate::model::group_messages_spec(old(store).model(), g),
            }))),
            Err(e) => e is StoreError && final(store).model() == old(store).model(),
        }),
        // Sending. A self-addressed message is rejected before any store
        // call.
        old(session).user_id matches Some(uid) ==> (msg matches ClientMessage::SendMessage {
            recipient,
            ..
        } ==> (recipient == MessageRecipient::User(uid) ==> (r matches Err(e)
            && e is SelfMessage && final(store).model() == old(store).model()
            && final(presence).view() == old(presence).view()))),
        old(session).user_id matches Some(uid) ==> (msg matches ClientMessage::SendMessage {
            message,
            recipient,
        } ==> match r {
            Ok(eff) => recipient != MessageRecipient::User(uid) && (exists|id: u16, mv: MsgView|
                {
                    &&& #[trigger] is_next_key(old(store).model().messages.dom(), id)
                    &&& #[trigger] mv.sender == uid
                    &&& mv.recipient == recipient
                    &&& mv.body == message@
                    &&& mv.tags.len() == 0
                    &&& final(store).model() == crate::model::send_tr(old(store).model(), id, mv)
                    &&& delivered_to_recipient(
                        eff,
                        old(presence).view(),
                        final(store).model().groups,
                        recipient,
                        EventView::MessageSent { message: (id, mv) },
                    )
                }),
            Err(e) => (e is SelfMessage ==> recipient == MessageRecipient::User(uid) && final(store).model() == old(store).model()) && (e is SelfMessage || e is StoreError),
        }),
        // Deleting.
        old(session).user_id matches Some(uid) ==> (msg matches ClientMessage::DeleteMessage { id }
            ==> match r {
            Ok(eff) => old(store).model().messages.dom().contains(id) && crate::model::may_delete(
                old(store).model(),
                id,
                uid,
            ) && final(store).model() == crate::model::delete_msg_tr(old(store).model(), id)
                && delivered_to_recipient(
                eff,
                old(presence).view(),
                final(store).model().groups,
                old(store).model().messages[id].recipient,
                EventView::MessageDeleted { id },
            ),
            Err(e) => e is StoreError,
        }),
        // Editing.
        old(session).user_id matches Some(uid) ==> (msg matches ClientMessage::EditMessage {
            id,
            new_message,
        } ==> match r {
            Ok(eff) => old(store).model().messages.dom().contains(id) && old(
                store,
            ).model().messages[id].sender == uid && final(store).model()
                == crate::model::edit_body_tr(old(store).model(), id, new_message@)
                && delivered_to_recipient(
                eff,
                old(presence).view(),
                final(store).model().groups,
                old(store).model().messages[id].recipient,
                EventView::MessageEdited { id, message: new_message@ },
            ),
            Err(e) => e is StoreError,
        }),
        old(session).user_id matches Some(uid) ==> (msg matches ClientMessage::EditTags {
            id,
            new_tags,
        } ==> match r {
            Ok(eff) => old(store).model().messages.dom().contains(id) && old(
                store,
            ).model().messages[id].sender == uid && final(store).model()
                == crate::model::edit_tags_tr(
                old(store).model(),
                id,
                new_tags@.map_values(|t: String| t@),
            ) && delivered_to_recipient(
                eff,
                old(presence).view(),
                final(store).model().groups,
                old(store).model().messages[id].recipient,
                EventView::MessageTagsEdited {
                    id,
                    tags: new_tags@.map_values(|t: String| t@),
                },
            ),
            Err(e) => e is StoreError,
        }),
{
    match msg {
        ClientMessage::RequestUsername { username } => {
            if session.user_id.is_some() {
                return Ok(Effects::none());
            }
            if !username_is_valid(username.as_str()) {
                return Err(ServerError::InvalidUsername);
            }
            let existing = match store.get_id_for_username(username.as_str()) {
                Err(e) => {
                    return Err(ServerError::StoreError(e));
                },
                Ok(v) => v,
            };
            let (uid, existing_user): (u16, bool) = match existing {
                Some(id) => {
                    if presence.is_online(id) {
                        return Err(ServerError::UsernameInUse);
                    }
                    (id, true)
                },
                None => {
                    match store.create_user(username.clone()) {
                        Err(e) => {
                            return Err(ServerError::StoreError(e));
                        },
                        Ok(id) => (id, false),
                    }
                },
            };
            let targets = presence.snapshot();
            let mut channel: Vec<(u16, ServerMessage)> = Vec::new();
            let mut j: usize = 0;
            while j < targets.len()
                invariant
                    0 <= j <= targets@.len(),
                    channel@.len() == j,
                    forall|k: int|
                        0 <= k < j ==> (#[trigger] channel@[k]).0 == targets@[k]
                            && channel@[k].1@ == (if existing_user {
                            EventView::UserOnline { id: uid }
                        } else {
                            EventView::UserAdded {
                                user: (crate::protocol::ServerUserView {
                                    id: uid,
                                    name: username@,
                                    online: true,
                                }),
                            }
                        }),
                decreases targets@.len() - j,
            {
                let ev = if existing_user {
                    ServerMessage::UserOnline { id: uid }
                } else {
                    ServerMessage::UserAdded {
                        user: ServerUser { id: uid, name: username.clone(), online: true },
                    }
                };
                channel.push((targets[j], ev));
                j += 1;
            }
            presence.register(uid);
            session.user_id = Some(uid);
            // Welcome data: every other user with their online flag, and
            // every group the user belongs to, member names resolved.
            let users_list = match store.list_users() {
                Err(e) => {
                    return Err(ServerError::StoreError(e));
                },
                Ok(v) => v,
            };
            let ghost ul = users_list@;
            let mut users_vec: Vec<ServerUser> = Vec::new();
            let mut i: usize = 0;
            while i < users_list.len()
                invariant
                    0 <= i <= ul.len(),
                    forall|x: int|
                        0 <= x < users_vec@.len() ==> store.model().users.contains_pair(
                            (#[trigger] users_vec@[x])@.id,
                            users_vec@[x]@.name,
                        ) && users_vec@[x]@.id != uid && users_vec@[x]@.online == presence.view()
                            .contains(users_vec@[x]@.id),
                    forall|y: int|
                        0 <= y < i && (#[trigger] ul[y]).0 != uid ==> exists|x: int|
                            0 <= x < users_vec@.len() && (#[trigger] users_vec@[x])@.id == ul[y].0,
                decreases ul.len() - i,
            {
                let ghost old_vec = users_vec@;
                if users_list[i].0 != uid {
                    let online = presence.is_online(users_list[i].0);
                    users_vec.push(
                        ServerUser {
                            id: users_list[i].0,
                            name: users_list[i].1.clone(),
                            online,
                        },
                    );
                    proof {
                        assert((#[trigger] users_vec@[users_vec@.len() - 1])@.id
                            == ul[i as int].0);
                        assert(forall|x: int|
                            0 <= x < old_vec.len() ==> #[trigger] users_vec@[x] == old_vec[x]);
                    }
                }
                proof {
                    assert forall|y: int|
                        0 <= y < i + 1 && (#[trigger] ul[y]).0 != uid implies exists|x: int|
                        0 <= x < users_vec@.len() && (#[trigger] users_vec@[x])@.id == ul[y].0 by {
                        if y < i {
                            let x0 = choose|x: int|
                                0 <= x < old_vec.len() && (#[trigger] old_vec[x])@.id == ul[y].0;
                            assert(users_vec@[x0]@.id == ul[y].0);
                        } else {
                            assert(users_vec@[users_vec@.len() - 1]@.id == ul[y].0);
                        }
                    }
                }
                i += 1;
            }
            let groups_list = match store.get_groups_for_user(uid) {
                Err(e) => {
                    return Err(ServerError::StoreError(e));
                },
                Ok(v) => v,
            };
            let ghost gl = groups_list@;
            let mut groups_vec: Vec<ServerGroup> = Vec::new();
            let mut gi: usize = 0;
            while gi < groups_list.len()
                invariant
                    0 <= gi <= gl.len(),
                    groups_vec@.len() == gi,
                    forall|x: int|
                        0 <= x < gi ==> (#[trigger] groups_vec@[x])@.id == gl[x].0
                            && groups_vec@[x]@.name == gl[x].1.0@,
                decreases gl.len() - gi,
            {
                let mut names: Vec<String> = Vec::new();
                let mut mi: usize = 0;
                while mi < groups_list[gi].1.1.len()
                    invariant
                        0 <= gi < groups_list@.len(),
                        0 <= mi <= groups_list@[gi as int].1.1@.len(),
                    decreases groups_list@[gi as int].1.1@.len() - mi,
                {
                    match store.get_username_for_id(groups_list[gi].1.1[mi]) {
                        Err(e) => {
                            return Err(ServerError::StoreError(e));
                        },
                        Ok(None) => {},
                        Ok(Some(name)) => {
                            names.push(name);
                        },
                    }
                    mi += 1;
                }
                groups_vec.push(
                    ServerGroup {
                        id: groups_list[gi].0,
                        name: groups_list[gi].1.0.clone(),
                        members: names,
                    },
                );
                gi += 1;
            }
            proof {
                let wusers = users_vec@.map_values(|u: ServerUser| u@);
                assert forall|k: u16|
                    #[trigger] store.model().users.dom().contains(k) && k != uid implies exists|
                    i: int,
                |
                    0 <= i < wusers.len() && (#[trigger] wusers[i]).id == k by {
                    let y = choose|y: int| 0 <= y < ul.len() && (#[trigger] ul[y]).0 == k;
                    let x = choose|x: int|
                        0 <= x < users_vec@.len() && (#[trigger] users_vec@[x])@.id == ul[y].0;
                    assert(wusers[x].id == k);
                }
                assert(welcome_users_listed(
                    store.model().users,
                    presence.view(),
                    uid,
                    wusers,
                ));
                let wgroups = groups_vec@.map_values(|g: ServerGroup| g@);
                assert forall|g: u16|
                    #[trigger] store.model().groups.dom().contains(g)
                        && store.model().groups[g].members.contains(uid) implies exists|i: int|
                    0 <= i < wgroups.len() && (#[trigger] wgroups[i]).id == g by {
                    let y = choose|y: int| 0 <= y < gl.len() && (#[trigger] gl[y]).0 == g;
                    assert(wgroups[y].id == g);
                }
                assert(welcome_groups_listed(store.model().groups, uid, wgroups));
            }
            let welcome = ServerMessage::Welcome {
                user_id: uid,
                users: users_vec,
                groups: groups_vec,
            };
            let mut reply: Vec<ServerMessage> = Vec::new();
            reply.push(welcome);
            Ok(Effects { reply, channel })
        },
        ClientMessage::GetMessages { recipient } => {
            let uid = match session.user_id {
                None => {
                    return Ok(Effects::none());
                },
                Some(uid) => uid,
            };
            let pairs = match store.get_messages(uid, recipient) {
                Err(e) => {
                    return Err(ServerError::StoreError(e));
                },
                Ok(v) => v,
            };
            let mut messages: Vec<MessageWithId> = Vec::new();
            let mut i: usize = 0;
            while i < pairs.len()
                invariant
                    0 <= i <= pairs@.len(),
                    messages@.len() == i,
                    forall|j: int|
                        0 <= j < i ==> (#[trigger] messages@[j])@ == (pairs@[j].0, pairs@[j].1@),
                decreases pairs@.len() - i,
            {
                messages.push(
                    MessageWithId { id: pairs[i].0, message: clone_message(&pairs[i].1) },
                );
                i += 1;
            }
            proof {
                assert(messages@.map_values(|m: MessageWithId| m@) =~= crate::model::view_pairs(
                    pairs@,
                ));
            }
            let mut reply: Vec<ServerMessage> = Vec::new();
            reply.push(ServerMessage::MessagesForRecipient { recipient, messages });
            Ok(Effects { reply, channel: Vec::new() })
        },
        ClientMessage::SendMessage { message, recipient } => {
            let uid = match session.user_id {
                None => {
                    return Ok(Effects::none());
                },
                Some(uid) => uid,
            };
            match recipient {
                MessageRecipient::User(u2) => {
                    if u2 == uid {
                        return Err(ServerError::SelfMessage);
                    }
                },
                MessageRecipient::Group(_) => {},
            }
            let (id, msg_row) = match store.send_message(message, uid, recipient) {
                Err(e) => {
                    return Err(ServerError::StoreError(e));
                },
                Ok(p) => p,
            };
            let ghost witness_id = id;
            let ghost witness_mv = msg_row@;
            let ev = ServerMessage::MessageSent {
                message: MessageWithId { id, message: msg_row },
            };
            let eff = match deliver_to_recipient(store, presence, ev, recipient) {
                Err(e) => {
                    return Err(e);
                },
                Ok(eff) => eff,
            };
            proof {
                assert(is_next_key(old(store).model().messages.dom(), witness_id)
                    && witness_mv.sender == uid && witness_mv.recipient == recipient
                    && witness_mv.body == (match msg {
                    ClientMessage::SendMessage { message, .. } => message@,
                    _ => witness_mv.body,
                }) && witness_mv.tags.len() == 0 && store.model() == crate::model::send_tr(
                    old(store).model(),
                    witness_id,
                    witness_mv,
                ) && delivered_to_recipient(
                    eff,
                    old(presence).view(),
                    store.model().groups,
                    recipient,
                    EventView::MessageSent { message: (witness_id, witness_mv) },
                ));
            }
            Ok(eff)
        },
        ClientMessage::DeleteMessage { id } => {
            let uid = match session.user_id {
                None => {
                    return Ok(Effects::none());
                },
                Some(uid) => uid,
            };
            let deleted = match store.delete_message(id, uid) {
                Err(e) => {
                    return Err(ServerError::StoreError(e));
                },
                Ok(m) => m,
            };
            let recipient = deleted.recipient;
            let ev = ServerMessage::MessageDeleted { id };
            match deliver_to_recipient(store, presence, ev, recipient) {
                Err(e) => Err(e),
                Ok(eff) => Ok(eff),
            }
        },
        ClientMessage::EditMessage { id, new_message } => {
            let uid = match session.user_id {
                None => {
                    return Ok(Effects::none());
                },
                Some(uid) => uid,
            };
            let edited = match store.edit_message_body(id, new_message, uid) {
                Err(e) => {
                    return Err(ServerError::StoreError(e));
                },
                Ok(m) => m,
            };
            let recipient = edited.recipient;
            let ev = ServerMessage::MessageEdited { id, message: edited.message };
            match deliver_to_recipient(store, presence, ev, recipient) {
                Err(e) => Err(e),
                Ok(eff) => Ok(eff),
            }
        },
        ClientMessage::EditTags { id, new_tags } => {
            let uid = match session.user_id {
                None => {
                    return Ok(Effects::none());
                },
                Some(uid) => uid,
            };
            let edited = match store.edit_message_tags(id, new_tags, uid) {
                Err(e) => {
                    return Err(ServerError::StoreError(e));
                },
                Ok(m) => m,
            };
            let recipient = edited.recipient;
            let ev = ServerMessage::MessageTagsEdited { id, tags: edited.tags };
            match deliver_to_recipient(store, presence, ev, recipient) {
                Err(e) => Err(e),
                Ok(eff) => Ok(eff),
            }
        },
        ClientMessage::CreateGroup { .. } => Ok(Effects::none()),
        ClientMessage::EditGroup { .. } => Ok(Effects::none()),
        ClientMessage::DeleteGroup { .. } => Ok(Effects::none()),
    }
}

/// Connection teardown, run whenever the connection loop exits: an
/// authenticated session is unregistered from the presence registry and
/// every remaining session is told the user went offline; an
/// unauthenticated one leaves no trace.
pub fn session_disconnect(session: &mut Session, presence: &mut Presence) -> (eff: Effects)
    requires
        old(presence).wf(),
    ensures
        final(presence).wf(),
        match old(session).user_id {
            Some(uid) => final(presence).view() == old(presence).view().remove(uid)
                && final(session).user_id is None && eff.reply@.len() == 0
                && eff.channel@.len() == final(presence).ids@.len() && forall|j: int|
                0 <= j < eff.channel@.len() ==> (#[trigger] eff.channel@[j]).0
                    == final(presence).ids@[j] && eff.channel@[j].1@ == (EventView::UserOffline {
                    id: uid,
                }),
            None => *final(presence) == *old(presence) && final(session).user_id is None
                && eff.is_empty(),
        },
{
    match session.user_id {
        None => Effects::none(),
        Some(uid) => {
            presence.unregister(uid);
            session.user_id = None;
            let targets = presence.snapshot();
            let mut channel: Vec<(u16, ServerMessage)> = Vec::new();
            let mut i: usize = 0;
            while i < targets.len()
                invariant
                    0 <= i <= targets@.len(),
                    channel@.len() == i,
                    forall|j: int|
                        0 <= j < i ==> (#[trigger] channel@[j]).0 == targets@[j]
                            && channel@[j].1@ == (EventView::UserOffline { id: uid }),
                decreases targets@.len() - i,
            {
                channel.push((targets[i], ServerMessage::UserOffline { id: uid }));
                i += 1;
            }
            Effects { reply: Vec::new(), channel }
        },
    }
}

} // verus!
