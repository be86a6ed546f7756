//! The verified store operations: validation, permission enforcement, id
//! allocation and the precise effect of every operation on the store's
//! model, proved against the trusted table wrappers in `storage.rs`.

use vstd::prelude::*;

use crate::model::{
    create_user_tr, dec_rec, delete_group_tr, delete_msg_tr, edit_body_tr, edit_tags_tr,
    group_messages_spec, group_msg_pred, is_next_key, lemma_create_user_wf, lemma_delete_group_wf,
    lemma_delete_msg_wf, lemma_put_group_wf, lemma_replace_msg_wf,
    lemma_send_wf, may_delete, put_group_tr, send_tr, user_conv_pred, user_messages_spec,
    view_pairs,
};
use crate::storage::Store;
use crate::types::{Message, MessageRecipient, MsgView, StoreError};

verus! {

/// The `(kind, id)` column pair under which a recipient is stored.
fn enc_rec(r: MessageRecipient) -> (p: (u8, u16))
    ensures
        p.0 <= 1,
        dec_rec(p.0, p.1) == r,
{
    match r {
        MessageRecipient::User(u) => (0, u),
        MessageRecipient::Group(g) => (1, g),
    }
}

/// The message a stored row denotes.
fn msg_from_row(row: (u16, u8, u16, String, i64, Vec<String>)) -> (m: Message)
    requires
        row.1 <= 1,
    ensures
        m@ == (MsgView {
            sender: row.0,
            recipient: dec_rec(row.1, row.2),
            body: row.3@,
            time: row.4,
            tags: row.5@.map_values(|t: String| t@),
        }),
{
    let recipient = if row.1 == 0 {
        MessageRecipient::User(row.2)
    } else {
        MessageRecipient::Group(row.2)
    };
    Message { sender: row.0, recipient, message: row.3, time: row.4, tags: row.5 }
}

/// Whether `v` holds `x`.
fn contains_u16(v: &Vec<u16>, x: u16) -> (r: bool)
    ensures
        r == v@.contains(x),
{
    let mut i: usize = 0;
    while i < v.len()
        invariant
            0 <= i <= v@.len(),
            forall|j: int| 0 <= j < i ==> v@[j] != x,
        decreases v@.len() - i,
    {
        if v[i] == x {
            return true;
        }
        i += 1;
    }
    false
}

impl Store {
    /// The username stored under `id`, `None` when there is none.
    pub fn get_username_for_id(&self, id: u16) -> (r: Result<Option<String>, StoreError>)
        ensures
            match r {
                Ok(Some(name)) => self.model().users.contains_pair(id, name@),
                Ok(None) => !self.model().users.dom().contains(id),
                Err(e) => e is Internal,
            },
    {
        match self.users_get(id) {
            Ok(v) => Ok(v),
            Err(s) => Err(StoreError::Internal(s)),
        }
    }

    /// The id stored for `username`, `None` when there is none.
    pub fn get_id_for_username(&self, username: &str) -> (r: Result<Option<u16>, StoreError>)
        ensures
            match r {
                Ok(Some(id)) => self.model().rev.contains_pair(username@, id),
                Ok(None) => !self.model().rev.dom().contains(username@),
                Err(e) => e is Internal,
            },
    {
        match self.rev_get(username) {
            Ok(v) => Ok(v),
            Err(s) => Err(StoreError::Internal(s)),
        }
    }

    /// Create a user under a fresh id, one past the greatest id in use.
    ///
    /// Fails with `UsernameInUse`, leaving the store unchanged, when the
    /// username is already taken.
    pub fn create_user(&mut self, username: String) -> (r: Result<u16, StoreError>)
        requires
            old(self).wf(),
        ensures
            final(self).wf(),
            match r {
                Ok(id) => !old(self).model().rev.dom().contains(username@) && is_next_key(
                    old(self).model().users.dom(),
                    id,
                ) && final(self).model() == create_user_tr(old(self).model(), username@, id),
                Err(e) => final(self).model() == old(self).model() && (e is UsernameInUse
                    || e is Internal) && (e is UsernameInUse ==> old(
                    self,
                ).model().rev.dom().contains(username@)),
            },
    {
        match self.rev_get(username.as_str()) {
            Err(s) => {
                return Err(StoreError::Internal(s));
            },
            Ok(Some(_)) => {
                return Err(StoreError::UsernameInUse);
            },
            Ok(None) => {},
        }
        let last = match self.users_last() {
            Err(s) => {
                return Err(StoreError::Internal(s));
            },
            Ok(v) => v,
        };
        let id: u16 = match last {
            None => 0,
            Some(k) => {
                if k == u16::MAX {
                    return Err(StoreError::Internal("user id space exhausted".to_owned()));
                }
                k + 1
            },
        };
        match self.users_insert_pair(id, username.as_str()) {
            Err(s) => {
                return Err(StoreError::Internal(s));
            },
            Ok(()) => {},
        }
        proof {
            lemma_create_user_wf(old(self).model(), username@, id);
            assert(self.model() =~= create_user_tr(old(self).model(), username@, id));
        }
        Ok(id)
    }

    /// Every user, as `(id, username)` pairs in ascending id order.
    pub fn list_users(&self) -> (r: Result<Vec<(u16, String)>, StoreError>)
        ensures
            r matches Ok(v) ==> crate::model::listing_of_users(self.model().users, v@),
            r matches Err(e) ==> e is Internal,
    {
        match self.users_list() {
            Ok(v) => Ok(v),
            Err(s) => Err(StoreError::Internal(s)),
        }
    }

    /// Create a group, or replace one wholesale.
    ///
    /// With `group_id` given, the group must exist and the acting user
    /// must currently be one of its members; the name and the full member
    /// set are then replaced. Without it, a fresh id is allocated. Every
    /// member id must name an existing user. The member list is stored as
    /// given: a caller wanting set semantics passes each id once —
    /// membership checks go by `contains`, so a duplicated id changes no
    /// permission.
    pub fn create_update_group(
        &mut self,
        name: String,
        members: Vec<u16>,
        group_id: Option<u16>,
        user_id: u16,
    ) -> (r: Result<u16, StoreError>)
        requires
            old(self).wf(),
        ensures
            final(self).wf(),
            match r {
                Ok(gid) => (match group_id {
                    Some(g) => gid == g && old(self).model().groups.dom().contains(g) && old(
                        self,
                    ).model().groups[g].members.contains(user_id),
                    None => is_next_key(old(self).model().groups.dom(), gid),
                }) && (forall|j: int|
                    0 <= j < members@.len() ==> old(self).model().users.dom().contains(
                        #[trigger] members@[j],
                    )) && final(self).model() == put_group_tr(
                    old(self).model(),
                    gid,
                    name@,
                    members@,
                ),
                Err(e) => final(self).model() == old(self).model() && (e is InvalidGroupId ==> (
                group_id matches Some(g) && !old(self).model().groups.dom().contains(g))) && (
                e is PermissionDenied ==> (group_id matches Some(g) && old(
                    self,
                ).model().groups.dom().contains(g) && !old(self).model().groups[g].members.contains(
                    user_id,
                ))) && (group_id matches Some(g) ==> ((!old(self).model().groups.dom().contains(g)
                    ==> (e is InvalidGroupId || e is Internal)) && (old(
                    self,
                ).model().groups.dom().contains(g) && !old(
                    self,
                ).model().groups[g].members.contains(user_id) ==> (e is PermissionDenied
                    || e is Internal)))) && (e is InvalidUserIds ==> exists|j: int|
                    0 <= j < members@.len() && !old(self).model().users.dom().contains(
                        #[trigger] members@[j],
                    )) && (e is InvalidGroupId || e is PermissionDenied || e is InvalidUserIds
                    || e is Internal),
            },
    {
        let gid: u16 = match group_id {
            Some(g) => {
                match self.groups_get(g) {
                    Err(s) => {
                        return Err(StoreError::Internal(s));
                    },
                    Ok(None) => {
                        return Err(StoreError::InvalidGroupId);
                    },
                    Ok(Some((_, mem))) => {
                        if !contains_u16(&mem, user_id) {
                            return Err(StoreError::PermissionDenied);
                        }
                        g
                    },
                }
            },
            None => {
                let last = match self.groups_last() {
                    Err(s) => {
                        return Err(StoreError::Internal(s));
                    },
                    Ok(v) => v,
                };
                match last {
                    None => 0,
                    Some(k) => {
                        if k == u16::MAX {
                            return Err(
                                StoreError::Internal("group id space exhausted".to_owned()),
                            );
                        }
                        k + 1
                    },
                }
            },
        };
        let mut i: usize = 0;
        while i < members.len()
            invariant
                old(self).wf(),
                self.db == old(self).db,
                group_id matches Some(g) ==> old(self).model().groups.dom().contains(g) && old(
                    self,
                ).model().groups[g].members.contains(user_id),
                0 <= i <= members@.len(),
                forall|j: int|
                    0 <= j < i ==> self.model().users.dom().contains(#[trigger] members@[j]),
            decreases members@.len() - i,
        {
            match self.users_get(members[i]) {
                Err(s) => {
                    return Err(StoreError::Internal(s));
                },
                Ok(None) => {
                    return Err(StoreError::InvalidUserIds);
                },
                Ok(Some(_)) => {},
            }
            i += 1;
        }
        match self.groups_insert(gid, name.as_str(), &members) {
            Err(s) => {
                return Err(StoreError::Internal(s));
            },
            Ok(()) => {},
        }
        proof {
            lemma_put_group_wf(old(self).model(), gid, name@, members@);
            assert(self.model() =~= put_group_tr(old(self).model(), gid, name@, members@));
        }
        Ok(gid)
    }

    /// Delete a group and, in the same transaction, every message ever
    /// addressed to it. The acting user must be a member.
    pub fn delete_group(&mut self, group_id: u16, user_id: u16) -> (r: Result<(), StoreError>)
        requires
            old(self).wf(),
        ensures
            final(self).wf(),
            match r {
                Ok(()) => old(self).model().groups.dom().contains(group_id) && old(
                    self,
                ).model().groups[group_id].members.contains(user_id) && final(self).model()
                    == delete_group_tr(old(self).model(), group_id),
                Err(e) => final(self).model() == old(self).model() && (e is InvalidGroupId ==> !old(
                    self,
                ).model().groups.dom().contains(group_id)) && (e is PermissionDenied ==> old(
                    self,
                ).model().groups.dom().contains(group_id) && !old(
                    self,
                ).model().groups[group_id].members.contains(user_id)) && (e is InvalidGroupId
                    || e is PermissionDenied || e is Internal),
            },
    {
        match self.groups_get(group_id) {
            Err(s) => {
                return Err(StoreError::Internal(s));
            },
            Ok(None) => {
                return Err(StoreError::InvalidGroupId);
            },
            Ok(Some((_, mem))) => {
                if !contains_u16(&mem, user_id) {
                    return Err(StoreError::PermissionDenied);
                }
            },
        }
        match self.group_cascade_remove(group_id) {
            Err(s) => {
                return Err(StoreError::Internal(s));
            },
            Ok(()) => {},
        }
        proof {
            lemma_delete_group_wf(old(self).model(), group_id);
            assert(self.model() =~= delete_group_tr(old(self).model(), group_id));
        }
        Ok(())
    }

    /// Every group the user belongs to, as `(id, (name, members))` pairs
    /// in ascending id order.
    #[verifier::rlimit(50)]
    pub fn get_groups_for_user(&self, user_id: u16) -> (r: Result<
        Vec<(u16, (String, Vec<u16>))>,
        StoreError,
    >)
        ensures
            r matches Ok(v) ==> self.model().users.dom().contains(user_id)
                && crate::model::groups_for_user_listing(self.model().groups, user_id, v@),
            r matches Err(e) ==> (e is InvalidUserIds ==> !self.model().users.dom().contains(
                user_id,
            )) && (e is InvalidUserIds || e is Internal),
    {
        match self.users_get(user_id) {
            Err(s) => {
                return Err(StoreError::Internal(s));
            },
            Ok(None) => {
                return Err(StoreError::InvalidUserIds);
            },
            Ok(Some(_)) => {},
        }
        let all = match self.groups_list() {
            Err(s) => {
                return Err(StoreError::Internal(s));
            },
            Ok(v) => v,
        };
        let ghost alls = all@;
        let mut out: Vec<(u16, (String, Vec<u16>))> = Vec::new();
        let mut i: usize = 0;
        while i < all.len()
            invariant
                0 <= i <= alls.len(),
                all@ == alls,
                crate::model::listing_of_groups(self.model().groups, alls),
                forall|x: int|
                    0 <= x < out@.len() ==> self.model().groups.contains_pair(
                        (#[trigger] out@[x]).0,
                        crate::model::GroupView { name: out@[x].1.0@, members: out@[x].1.1@ },
                    ) && out@[x].1.1@.contains(user_id),
                forall|y: int|
                    0 <= y < i && (#[trigger] alls[y]).1.1@.contains(user_id) ==> exists|x: int|
                        0 <= x < out@.len() && (#[trigger] out@[x]).0 == alls[y].0,
                forall|x: int|
                    0 <= x < out@.len() ==> 0 < i && (#[trigger] out@[x]).0 <= alls[i - 1].0,
                forall|x1: int, x2: int|
                    0 <= x1 < x2 < out@.len() ==> (#[trigger] out@[x1]).0 < (
                    #[trigger] out@[x2]).0,
            decreases alls.len() - i,
        {
            let ghost old_out = out@;
            proof {
                if 0 < i {
                    assert((#[trigger] alls[i - 1]).0 < (#[trigger] alls[i as int]).0);
                }
            }
            if contains_u16(&all[i].1.1, user_id) {
                let gname = all[i].1.0.clone();
                let gmembers = all[i].1.1.clone();
                proof {
                    assert(gmembers@ =~= alls[i as int].1.1@);
                }
                out.push((all[i].0, (gname, gmembers)));
                proof {
                    assert(out@ == old_out.push((alls[i as int].0, (gname, gmembers))));
                    assert((#[trigger] out@[out@.len() - 1]).0 == alls[i as int].0);
                    assert(out@[out@.len() - 1].1.1@.contains(user_id));
                    assert(forall|x: int|
                        0 <= x < old_out.len() ==> #[trigger] out@[x] == old_out[x]);
                }
            }
            proof {
                assert forall|y: int|
                    0 <= y < i + 1 && (#[trigger] alls[y]).1.1@.contains(user_id)
                    implies exists|x: int|
                    0 <= x < out@.len() && (#[trigger] out@[x]).0 == alls[y].0 by {
                    if y < i {
                        let x0 = choose|x: int|
                            0 <= x < old_out.len() && (#[trigger] old_out[x]).0 == alls[y].0;
                        assert(out@[x0].0 == alls[y].0);
                    } else {
                        assert(out@[out@.len() - 1].0 == alls[y].0);
                    }
                }
            }
            i += 1;
        }
        proof {
            assert forall|k: u16|
                #[trigger] self.model().groups.dom().contains(k)
                    && self.model().groups[k].members.contains(user_id) implies exists|x: int|
                0 <= x < out@.len() && (#[trigger] out@[x]).0 == k by {
                let y = choose|y: int| 0 <= y < alls.len() && (#[trigger] alls[y]).0 == k;
                assert(self.model().groups.contains_pair(
                    alls[y].0,
                    crate::model::GroupView { name: alls[y].1.0@, members: alls[y].1.1@ },
                ));
                assert(alls[y].1.1@.contains(user_id));
            }
            assert(crate::model::groups_for_user_listing(self.model().groups, user_id, out@));
        }
        Ok(out)
    }

    /// The member ids of the group, `None` when the group does not exist.
    pub fn get_group_members(&self, group_id: u16) -> (r: Result<Option<Vec<u16>>, StoreError>)
        ensures
            match r {
                Ok(Some(mem)) => self.model().groups.dom().contains(group_id) && mem@ == self
                    .model().groups[group_id].members,
                Ok(None) => !self.model().groups.dom().contains(group_id),
                Err(e) => e is Internal,
            },
    {
        match self.groups_get(group_id) {
            Err(s) => Err(StoreError::Internal(s)),
            Ok(None) => Ok(None),
            Ok(Some((_, mem))) => Ok(Some(mem)),
        }
    }

    /// Store a message and its delivery-index entry together, under a
    /// fresh id. The sender must exist; a user recipient must exist; a
    /// group recipient must exist and have the sender among its members.
    /// The timestamp is taken from the clock at commit time. Returns the
    /// id and the stored message.
    pub fn send_message(&mut self, message: String, sender: u16, recipient: MessageRecipient) -> (r:
        Result<(u16, Message), StoreError>)
        requires
            old(self).wf(),
        ensures
            final(self).wf(),
            match r {
                Ok(p) => old(self).model().users.dom().contains(sender) && (recipient matches
                MessageRecipient::Group(g) ==> old(self).model().groups.dom().contains(g) && old(
                    self,
                ).model().groups[g].members.contains(sender)) && (recipient matches
                MessageRecipient::User(u) ==> old(self).model().users.dom().contains(u))
                    && is_next_key(old(self).model().messages.dom(), p.0) && p.1.sender == sender
                    && p.1.recipient == recipient && p.1.message@ == message@ && p.1.tags@.len()
                    == 0 && final(self).model() == send_tr(old(self).model(), p.0, p.1@),
                Err(e) => final(self).model() == old(self).model() && (e is InvalidUserIds ==> !old(
                    self,
                ).model().users.dom().contains(sender) || (recipient matches
                MessageRecipient::User(u) && !old(self).model().users.dom().contains(u))) && (
                e is InvalidGroupId ==> (recipient matches MessageRecipient::Group(g) && !old(
                    self,
                ).model().groups.dom().contains(g))) && (e is PermissionDenied ==> (recipient
                    matches MessageRecipient::Group(g) && old(self).model().groups.dom().contains(
                    g,
                ) && !old(self).model().groups[g].members.contains(sender))) && ((
                e is InvalidGroupId || e is PermissionDenied) ==> old(
                    self,
                ).model().users.dom().contains(sender)) && (e is InvalidUserIds
                    || e is InvalidGroupId || e is PermissionDenied || e is Internal),
            },
    {
        match self.users_get(sender) {
            Err(s) => {
                return Err(StoreError::Internal(s));
            },
            Ok(None) => {
                return Err(StoreError::InvalidUserIds);
            },
            Ok(Some(_)) => {},
        }
        match recipient {
            MessageRecipient::Group(g) => {
                match self.groups_get(g) {
                    Err(s) => {
                        return Err(StoreError::Internal(s));
                    },
                    Ok(None) => {
                        return Err(StoreError::InvalidGroupId);
                    },
                    Ok(Some((_, mem))) => {
                        if !contains_u16(&mem, sender) {
                            return Err(StoreError::PermissionDenied);
                        }
                    },
                }
            },
            MessageRecipient::User(u) => {
                match self.users_get(u) {
                    Err(s) => {
                        return Err(StoreError::Internal(s));
                    },
                    Ok(None) => {
                        return Err(StoreError::InvalidUserIds);
                    },
                    Ok(Some(_)) => {},
                }
            },
        }
        let last = match self.msgs_last() {
            Err(s) => {
                return Err(StoreError::Internal(s));
            },
            Ok(v) => v,
        };
        let id: u16 = match last {
            None => 0,
            Some(k) => {
                if k == u16::MAX {
                    return Err(StoreError::Internal("message id space exhausted".to_owned()));
                }
                k + 1
            },
        };
        let time = crate::storage::now_timestamp();
        let msg = Message { sender, recipient, message, time, tags: Vec::new() };
        let (kind, rid) = enc_rec(msg.recipient);
        match self.msgs_insert_with_ep(id, kind, rid, sender, msg.message.as_str(), time, &msg.tags)
        {
            Err(s) => {
                return Err(StoreError::Internal(s));
            },
            Ok(()) => {},
        }
        proof {
            assert(msg@ =~= (MsgView {
                sender,
                recipient,
                body: msg.message@,
                time,
                tags: msg.tags@.map_values(|t: String| t@),
            }));
            lemma_send_wf(old(self).model(), id, msg@);
            assert(self.model() =~= send_tr(old(self).model(), id, msg@));
        }
        Ok((id, msg))
    }

    /// Delete a message and its delivery-index entry together, returning
    /// the deleted message. Permitted to its sender, its direct recipient,
    /// or any current member of its recipient group.
    pub fn delete_message(&mut self, message_id: u16, user_id: u16) -> (r: Result<
        Message,
        StoreError,
    >)
        requires
            old(self).wf(),
        ensures
            final(self).wf(),
            match r {
                Ok(msg) => old(self).model().messages.dom().contains(message_id) && msg@ == old(
                    self,
                ).model().messages[message_id] && may_delete(old(self).model(), message_id, user_id)
                    && final(self).model() == delete_msg_tr(old(self).model(), message_id),
                Err(e) => final(self).model() == old(self).model() && (e is InvalidMessageId
                    ==> !old(self).model().messages.dom().contains(message_id)) && (
                e is PermissionDenied ==> old(self).model().messages.dom().contains(message_id)
                    && !may_delete(old(self).model(), message_id, user_id)) && (
                e is InvalidMessageId || e is PermissionDenied || e is Internal),
            },
    {
        let row = match self.msgs_get(message_id) {
            Err(s) => {
                return Err(StoreError::Internal(s));
            },
            Ok(None) => {
                return Err(StoreError::InvalidMessageId);
            },
            Ok(Some(row)) => row,
        };
        let kind = row.1;
        let rid = row.2;
        let msg = msg_from_row(row);
        let allowed: bool = if msg.sender == user_id {
            true
        } else {
            match msg.recipient {
                MessageRecipient::User(u) => u == user_id,
                MessageRecipient::Group(g) => {
                    match self.groups_get(g) {
                        Err(s) => {
                            return Err(StoreError::Internal(s));
                        },
                        Ok(None) => false,
                        Ok(Some((_, mem))) => contains_u16(&mem, user_id),
                    }
                },
            }
        };
        if !allowed {
            return Err(StoreError::PermissionDenied);
        }
        match self.msgs_remove_with_ep(message_id, kind, rid, msg.sender) {
            Err(s) => {
                return Err(StoreError::Internal(s));
            },
            Ok(()) => {},
        }
        proof {
            lemma_delete_msg_wf(old(self).model(), message_id);
            assert(self.model() =~= delete_msg_tr(old(self).model(), message_id));
        }
        Ok(msg)
    }

    /// Replace a message's body. Permitted to the sender only. Returns
    /// the updated message.
    pub fn edit_message_body(&mut self, message_id: u16, new_body: String, user_id: u16) -> (r:
        Result<Message, StoreError>)
        requires
            old(self).wf(),
        ensures
            final(self).wf(),
            match r {
                Ok(msg) => old(self).model().messages.dom().contains(message_id) && old(
                    self,
                ).model().messages[message_id].sender == user_id && msg@ == (MsgView {
                    body: new_body@,
                    ..old(self).model().messages[message_id]
                }) && final(self).model() == edit_body_tr(old(self).model(), message_id, new_body@),
                Err(e) => final(self).model() == old(self).model() && (e is InvalidMessageId
                    ==> !old(self).model().messages.dom().contains(message_id)) && (
                e is PermissionDenied ==> old(self).model().messages.dom().contains(message_id)
                    && old(self).model().messages[message_id].sender != user_id) && (
                e is InvalidMessageId || e is PermissionDenied || e is Internal),
            },
    {
        let row = match self.msgs_get(message_id) {
            Err(s) => {
                return Err(StoreError::Internal(s));
            },
            Ok(None) => {
                return Err(StoreError::InvalidMessageId);
            },
            Ok(Some(row)) => row,
        };
        let kind = row.1;
        let rid = row.2;
        let mut msg = msg_from_row(row);
        if msg.sender != user_id {
            return Err(StoreError::PermissionDenied);
        }
        msg.message = new_body;
        match self.msgs_put(message_id, kind, rid, msg.sender, msg.message.as_str(), msg.time, &msg.tags) {
            Err(s) => {
                return Err(StoreError::Internal(s));
            },
            Ok(()) => {},
        }
        proof {
            lemma_replace_msg_wf(old(self).model(), message_id, msg@);
            assert(msg@ =~= (MsgView {
                body: msg.message@,
                ..old(self).model().messages[message_id]
            }));
            assert(self.model() =~= edit_body_tr(old(self).model(), message_id, msg.message@));
        }
        Ok(msg)
    }

    /// Replace a message's tags. Permitted to the sender only. Returns
    /// the updated message.
    pub fn edit_message_tags(&mut self, message_id: u16, new_tags: Vec<String>, user_id: u16) -> (r:
        Result<Message, StoreError>)
        requires
            old(self).wf(),
        ensures
            final(self).wf(),
            match r {
                Ok(msg) => old(self).model().messages.dom().contains(message_id) && old(
                    self,
                ).model().messages[message_id].sender == user_id && msg@ == (MsgView {
                    tags: new_tags@.map_values(|t: String| t@),
                    ..old(self).model().messages[message_id]
                }) && final(self).model() == edit_tags_tr(
                    old(self).model(),
                    message_id,
                    new_tags@.map_values(|t: String| t@),
                ),
                Err(e) => final(self).model() == old(self).model() && (e is InvalidMessageId
                    ==> !old(self).model().messages.dom().contains(message_id)) && (
                e is PermissionDenied ==> old(self).model().messages.dom().contains(message_id)
                    && old(self).model().messages[message_id].sender != user_id) && (
                e is InvalidMessageId || e is PermissionDenied || e is Internal),
            },
    {
        let row = match self.msgs_get(message_id) {
            Err(s) => {
                return Err(StoreError::Internal(s));
            },
            Ok(None) => {
                return Err(StoreError::InvalidMessageId);
            },
            Ok(Some(row)) => row,
        };
        let kind = row.1;
        let rid = row.2;
        let mut msg = msg_from_row(row);
        if msg.sender != user_id {
            return Err(StoreError::PermissionDenied);
        }
        msg.tags = new_tags;
        match self.msgs_put(message_id, kind, rid, msg.sender, msg.message.as_str(), msg.time, &msg.tags) {
            Err(s) => {
                return Err(StoreError::Internal(s));
            },
            Ok(()) => {},
        }
        proof {
            lemma_replace_msg_wf(old(self).model(), message_id, msg@);
            assert(msg@ =~= (MsgView {
                tags: msg.tags@.map_values(|t: String| t@),
                ..old(self).model().messages[message_id]
            }));
            assert(self.model() =~= edit_tags_tr(
                old(self).model(),
                message_id,
                msg.tags@.map_values(|t: String| t@),
            ));
        }
        Ok(msg)
    }

    /// All messages between the user and the recipient, in ascending
    /// message-id order.
    ///
    /// For a user recipient: the union of the messages either of the two
    /// users sent to the other. For a group recipient: every message
    /// addressed to the group, readable only by current members.
    pub fn get_messages(&self, user_id: u16, recipient: MessageRecipient) -> (r: Result<
        Vec<(u16, Message)>,
        StoreError,
    >)
        ensures
            r matches Ok(v) ==> (recipient matches MessageRecipient::User(b) ==> view_pairs(v@)
                == user_messages_spec(self.model(), user_id, b)),
            r matches Ok(v) ==> (recipient matches MessageRecipient::Group(g) ==> self
                .model().groups.dom().contains(g) && self.model().groups[g].members.contains(
                user_id,
            ) && view_pairs(v@) == group_messages_spec(self.model(), g)),
            r matches Err(e) ==> (e is InvalidGroupId ==> (recipient matches
            MessageRecipient::Group(g) && !self.model().groups.dom().contains(g))) && (
            e is PermissionDenied ==> (recipient matches MessageRecipient::Group(g) && self
                .model().groups.dom().contains(g) && !self.model().groups[g].members.contains(
                user_id,
            ))) && (e is InvalidGroupId || e is PermissionDenied || e is Internal),
    {
        let ghost m = self.model();
        match recipient {
            MessageRecipient::User(b) => {
                let ghost pred = user_conv_pred(m, user_id, b);
                let mut out: Vec<(u16, Message)> = Vec::new();
                let mut i: u32 = 0;
                while i < 0x10000
                    invariant
                        0 <= i <= 0x10000,
                        m == self.model(),
                        pred == user_conv_pred(m, user_id, b),
                        view_pairs(out@) == Seq::new(i as nat, |j: int| j as u16).filter(
                            pred,
                        ).map_values(|id: u16| (id, m.messages[id])),
                    decreases 0x10000 - i,
                {
                    let id = i as u16;
                    let ghost old_out = out@;
                    let row = match self.msgs_get(id) {
                        Err(s) => {
                            return Err(StoreError::Internal(s));
                        },
                        Ok(v) => v,
                    };
                    match row {
                        Some(row) => {
                            let cond: bool = row.1 == 0 && ((row.0 == b && row.2 == user_id) || (
                            row.0 == user_id && row.2 == b));
                            proof {
                                assert(m.messages.dom().contains(id));
                                assert(cond == pred(id));
                            }
                            if cond {
                                let msg = msg_from_row(row);
                                out.push((id, msg));
                                proof {
                                    assert(view_pairs(out@) =~= view_pairs(old_out).push(
                                        (id, m.messages[id]),
                                    ));
                                }
                            }
                        },
                        None => {
                            proof {
                                assert(!pred(id));
                            }
                        },
                    }
                    proof {
                        assert(id == (i as int) as u16);
                        crate::model::lemma_scan_step(
                            m,
                            pred,
                            i as int,
                            view_pairs(old_out),
                            view_pairs(out@),
                        );
                    }
                    i += 1;
                }
                proof {
                    assert(Seq::new(0x10000 as nat, |j: int| j as u16) =~= crate::model::all_ids());
                    assert(view_pairs(out@) == user_messages_spec(m, user_id, b));
                }
                Ok(out)
            },
            MessageRecipient::Group(g) => {
                match self.groups_get(g) {
                    Err(s) => {
                        return Err(StoreError::Internal(s));
                    },
                    Ok(None) => {
                        return Err(StoreError::InvalidGroupId);
                    },
                    Ok(Some((_, mem))) => {
                        if !contains_u16(&mem, user_id) {
                            return Err(StoreError::PermissionDenied);
                        }
                    },
                }
                let ghost pred = group_msg_pred(m, g);
                let mut out: Vec<(u16, Message)> = Vec::new();
                let mut i: u32 = 0;
                while i < 0x10000
                    invariant
                        0 <= i <= 0x10000,
                        m == self.model(),
                        pred == group_msg_pred(m, g),
                        view_pairs(out@) == Seq::new(i as nat, |j: int| j as u16).filter(
                            pred,
                        ).map_values(|id: u16| (id, m.messages[id])),
                    decreases 0x10000 - i,
                {
                    let id = i as u16;
                    let ghost old_out = out@;
                    let row = match self.msgs_get(id) {
                        Err(s) => {
                            return Err(StoreError::Internal(s));
                        },
                        Ok(v) => v,
                    };
                    match row {
                        Some(row) => {
                            let cond: bool = row.1 == 1 && row.2 == g;
                            proof {
                                assert(m.messages.dom().contains(id));
                                assert(cond == pred(id));
                            }
                            if cond {
                                let msg = msg_from_row(row);
                                out.push((id, msg));
                                proof {
                                    assert(view_pairs(out@) =~= view_pairs(old_out).push(
                                        (id, m.messages[id]),
                                    ));
                                }
                            }
                        },
                        None => {
                            proof {
                                assert(!pred(id));
                            }
                        },
                    }
                    proof {
                        assert(id == (i as int) as u16);
                        crate::model::lemma_scan_step(
                            m,
                            pred,
                            i as int,
                            view_pairs(old_out),
                            view_pairs(out@),
                        );
                    }
                    i += 1;
                }
                proof {
                    assert(Seq::new(0x10000 as nat, |j: int| j as u16) =~= crate::model::all_ids());
                    assert(view_pairs(out@) == group_messages_spec(m, g));
                }
                Ok(out)
            },
        }
    }

    /// The number of message rows.
    pub fn message_count(&self) -> (r: Result<u64, StoreError>)
        ensures
            match r {
                Ok(n) => n as nat == self.model().messages.dom().len(),
                Err(e) => e is Internal,
            },
    {
        match self.msgs_len() {
            Ok(n) => Ok(n),
            Err(s) => Err(StoreError::Internal(s)),
        }
    }

    /// The number of delivery-index rows.
    pub fn index_count(&self) -> (r: Result<u64, StoreError>)
        ensures
            match r {
                Ok(n) => n as nat == self.model().endpoints.len(),
                Err(e) => e is Internal,
            },
    {
        match self.eps_len() {
            Ok(n) => Ok(n),
            Err(s) => Err(StoreError::Internal(s)),
        }
    }
}

} // verus!
