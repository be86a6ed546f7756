//! The wire protocol's tagged-union schema: the client-to-server request
//! family, the server-to-client event family, and the session-level error
//! taxonomy. One encoded value travels per network message; the binary
//! encoding and decoding live with the transport, outside the library.

use vstd::prelude::*;

use crate::types::{Message, MessageRecipient, MsgView, StoreError};

verus! {

/// A request from a client. Only `RequestUsername` is accepted before
/// authentication.
#[derive(Debug, Clone)]
pub enum ClientMessage {
    RequestUsername { username: String },
    GetMessages { recipient: MessageRecipient },
    SendMessage { message: String, recipient: MessageRecipient },
    EditMessage { id: u16, new_message: String },
    EditTags { id: u16, new_tags: Vec<String> },
    DeleteMessage { id: u16 },
    CreateGroup { name: String, members: Vec<u16> },
    EditGroup { id: u16, new_name: String, new_members: Vec<u16> },
    DeleteGroup { id: u16 },
}

/// A user as shown to clients: id, name, and whether a connection is
/// live.
#[derive(Debug, Clone)]
pub struct ServerUser {
    pub id: u16,
    pub name: String,
    pub online: bool,
}

#[verifier::ext_equal]
pub ghost struct ServerUserView {
    pub id: u16,
    pub name: Seq<char>,
    pub online: bool,
}

impl View for ServerUser {
    type V = ServerUserView;

    open spec fn view(&self) -> ServerUserView {
        ServerUserView { id: self.id, name: self.name@, online: self.online }
    }
}

/// A group as shown to clients: id, name, and the member usernames,
/// resolved.
#[derive(Debug, Clone)]
pub struct ServerGroup {
    pub id: u16,
    pub name: String,
    pub members: Vec<String>,
}

#[verifier::ext_equal]
pub ghost struct ServerGroupView {
    pub id: u16,
    pub name: Seq<char>,
    pub members: Seq<Seq<char>>,
}

impl View for ServerGroup {
    type V = ServerGroupView;

    open spec fn view(&self) -> ServerGroupView {
        ServerGroupView {
            id: self.id,
            name: self.name@,
            members: self.members@.map_values(|s: String| s@),
        }
    }
}

/// A message together with the id it is stored under.
#[derive(Debug, Clone)]
pub struct MessageWithId {
    pub id: u16,
    pub message: Message,
}

impl View for MessageWithId {
    type V = (u16, MsgView);

    open spec fn view(&self) -> (u16, MsgView) {
        (self.id, self.message@)
    }
}

/// An event pushed to a client.
#[derive(Debug, Clone)]
pub enum ServerMessage {
    Error { err: String },
    Welcome { user_id: u16, users: Vec<ServerUser>, groups: Vec<ServerGroup> },
    /// A completely new user was added.
    UserAdded { user: ServerUser },
    /// An existing user came online.
    UserOnline { id: u16 },
    UserOffline { id: u16 },
    MessagesForRecipient { recipient: MessageRecipient, messages: Vec<MessageWithId> },
    MessageSent { message: MessageWithId },
    MessageEdited { id: u16, message: String },
    MessageTagsEdited { id: u16, tags: Vec<String> },
    MessageDeleted { id: u16 },
    GroupAdded { group: ServerGroup },
    GroupEdited { group: ServerGroup },
    GroupDeleted { id: u16 },
}

#[verifier::ext_equal]
pub ghost enum EventView {
    Error { err: Seq<char> },
    Welcome { user_id: u16, users: Seq<ServerUserView>, groups: Seq<ServerGroupView> },
    UserAdded { user: ServerUserView },
    UserOnline { id: u16 },
    UserOffline { id: u16 },
    MessagesForRecipient { recipient: MessageRecipient, messages: Seq<(u16, MsgView)> },
    MessageSent { message: (u16, MsgView) },
    MessageEdited { id: u16, message: Seq<char> },
    MessageTagsEdited { id: u16, tags: Seq<Seq<char>> },
    MessageDeleted { id: u16 },
    GroupAdded { group: ServerGroupView },
    GroupEdited { group: ServerGroupView },
    GroupDeleted { id: u16 },
}

impl View for ServerMessage {
    type V = EventView;

    open spec fn view(&self) -> EventView {
        match self {
            ServerMessage::Error { err } => EventView::Error { err: err@ },
            ServerMessage::Welcome { user_id, users, groups } => EventView::Welcome {
                user_id: *user_id,
                users: users@.map_values(|u: ServerUser| u@),
                groups: groups@.map_values(|g: ServerGroup| g@),
            },
            ServerMessage::UserAdded { user } => EventView::UserAdded { user: user@ },
            ServerMessage::UserOnline { id } => EventView::UserOnline { id: *id },
            ServerMessage::UserOffline { id } => EventView::UserOffline { id: *id },
            ServerMessage::MessagesForRecipient { recipient, messages } => (
            EventView::MessagesForRecipient {
                recipient: *recipient,
                messages: messages@.map_values(|m: MessageWithId| m@),
            }),
            ServerMessage::MessageSent { message } => EventView::MessageSent { message: message@ },
            ServerMessage::MessageEdited { id, message } => EventView::MessageEdited {
                id: *id,
                message: message@,
            },
            ServerMessage::MessageTagsEdited { id, tags } => EventView::MessageTagsEdited {
                id: *id,
                tags: tags@.map_values(|t: String| t@),
            },
            ServerMessage::MessageDeleted { id } => EventView::MessageDeleted { id: *id },
            ServerMessage::GroupAdded { group } => EventView::GroupAdded { group: group@ },
            ServerMessage::GroupEdited { group } => EventView::GroupEdited { group: group@ },
            ServerMessage::GroupDeleted { id } => EventView::GroupDeleted { id: *id },
        }
    }
}

/// Errors reported to the requesting client, and only to it.
#[derive(Debug)]
pub enum ServerError {
    /// Someone is already connected under that username.
    UsernameInUse,
    /// The requested username holds an invalid character.
    InvalidUsername,
    /// A message addressed to its own sender.
    SelfMessage,
    /// An error from the store.
    StoreError(StoreError),
}

impl ServerError {
    pub open spec fn spec_message(self) -> Seq<char> {
        match self {
            ServerError::UsernameInUse => "Someone has already logged in with that username"@,
            ServerError::InvalidUsername => "Username may only contain alphanumeric characters"@,
            ServerError::SelfMessage => "You cannot send messages to yourself"@,
            ServerError::StoreError(e) => e.spec_message(),
        }
    }

    /// Human-readable description, for `Error` events.
    pub fn message(&self) -> (r: String)
        ensures
            r@ == self.spec_message(),
    {
        match self {
            ServerError::UsernameInUse => "Someone has already logged in with that username"
                .to_owned(),
            ServerError::InvalidUsername => "Username may only contain alphanumeric characters"
                .to_owned(),
            ServerError::SelfMessage => "You cannot send messages to yourself".to_owned(),
            ServerError::StoreError(e) => e.message(),
        }
    }
}

} // verus!
