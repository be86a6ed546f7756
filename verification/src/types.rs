//! Core data types of the store: recipients, messages, and the store's
//! error taxonomy.

use vstd::prelude::*;

verus! {

/// The addressing target of a message: either a single user or a group.
///
/// Recipients order with the user/group discriminant first, then the id;
/// the storage layer encodes that as a composite key prefix.
#[derive(Debug, Clone, Copy, PartialEq, Eq, Structural)]
pub enum MessageRecipient {
    User(u16),
    Group(u16),
}

impl MessageRecipient {
    /// The id component of the recipient, whichever kind it is.
    pub fn id(&self) -> (i: u16)
        ensures
            i == self.spec_id(),
    {
        match self {
            MessageRecipient::User(id) => *id,
            MessageRecipient::Group(id) => *id,
        }
    }

    pub open spec fn spec_id(self) -> u16 {
        match self {
            MessageRecipient::User(id) => id,
            MessageRecipient::Group(id) => id,
        }
    }

    pub open spec fn is_group(self) -> bool {
        self is Group
    }
}

/// A stored message. The message id is not a field: it is the key under
/// which the row is stored, and travels beside the message where needed.
#[derive(Debug, Clone, PartialEq, Eq)]
pub struct Message {
    pub sender: u16,
    pub recipient: MessageRecipient,
    pub message: String,
    pub time: i64,
    pub tags: Vec<String>,
}

/// Mathematical view of a `Message`.
#[verifier::ext_equal]
pub ghost struct MsgView {
    pub sender: u16,
    pub recipient: MessageRecipient,
    pub body: Seq<char>,
    pub time: i64,
    pub tags: Seq<Seq<char>>,
}

impl View for Message {
    type V = MsgView;

    open spec fn view(&self) -> MsgView {
        MsgView {
            sender: self.sender,
            recipient: self.recipient,
            body: self.message@,
            time: self.time,
            tags: self.tags@.map_values(|t: String| t@),
        }
    }
}

/// Errors of the store operations.
///
/// `Internal` carries the text of an underlying storage-engine error; the
/// remaining variants are the store's own referential and permission
/// failures, kept distinct because callers observe the difference.
#[derive(Debug)]
pub enum StoreError {
    /// An underlying storage-engine error, surfaced as opaque text.
    Internal(String),
    InvalidUserIds,
    InvalidGroupId,
    InvalidMessageId,
    UsernameInUse,
    PermissionDenied,
}

impl StoreError {
    pub open spec fn spec_message(self) -> Seq<char> {
        match self {
            StoreError::Internal(s) => s@,
            StoreError::InvalidUserIds => "Invalid user ID(s)"@,
            StoreError::InvalidGroupId => "Invalid group ID"@,
            StoreError::InvalidMessageId => "Invalid message ID"@,
            StoreError::UsernameInUse => "Username is already in use"@,
            StoreError::PermissionDenied => "Permission denied"@,
        }
    }

    /// Human-readable description of the error.
    pub fn message(&self) -> (r: String)
        ensures
            r@ == self.spec_message(),
    {
        match self {
            StoreError::Internal(s) => s.clone(),
            StoreError::InvalidUserIds => "Invalid user ID(s)".to_owned(),
            StoreError::InvalidGroupId => "Invalid group ID".to_owned(),
            StoreError::InvalidMessageId => "Invalid message ID".to_owned(),
            StoreError::UsernameInUse => "Username is already in use".to_owned(),
            StoreError::PermissionDenied => "Permission denied".to_owned(),
        }
    }
}

} // verus!
