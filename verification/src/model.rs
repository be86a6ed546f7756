//! The mathematical model of the store: the contents of the five tables
//! (users, reverse usernames, groups, messages, delivery index) as maps and
//! sets, the cross-table invariants, and the transition each store operation
//! performs on that model.

use vstd::prelude::*;

use crate::types::{MessageRecipient, MsgView};

verus! {

/// Mathematical view of one group row: its name and its member set,
/// kept in the order the row stores them.
#[verifier::ext_equal]
pub ghost struct GroupView {
    pub name: Seq<char>,
    pub members: Seq<u16>,
}

/// The whole store as mathematics: one map or set per table.
///
/// `endpoints` models the delivery index: one `(recipient, sender, id)`
/// key per message row.
#[verifier::ext_equal]
pub ghost struct StoreModel {
    pub users: Map<u16, Seq<char>>,
    pub rev: Map<Seq<char>, u16>,
    pub groups: Map<u16, GroupView>,
    pub messages: Map<u16, MsgView>,
    pub endpoints: Set<(MessageRecipient, u16, u16)>,
}

pub open spec fn empty_model() -> StoreModel {
    StoreModel {
        users: Map::empty(),
        rev: Map::empty(),
        groups: Map::empty(),
        messages: Map::empty(),
        endpoints: Set::empty(),
    }
}

/// The forward and reverse username tables are inverse maps of each other.
pub open spec fn users_consistent(m: StoreModel) -> bool {
    &&& forall|id: u16|
        #[trigger] m.users.dom().contains(id) ==> m.rev.contains_pair(m.users[id], id)
    &&& forall|n: Seq<char>|
        #[trigger] m.rev.dom().contains(n) ==> m.users.contains_pair(m.rev[n], n)
}

/// Every message row has exactly its own delivery-index entry, and every
/// index entry points back at an existing message with matching recipient
/// and sender: the two tables are in bijection.
pub open spec fn index_consistent(m: StoreModel) -> bool {
    &&& forall|k: (MessageRecipient, u16, u16)|
        #[trigger] m.endpoints.contains(k) ==> m.messages.dom().contains(k.2)
            && m.messages[k.2].recipient == k.0 && m.messages[k.2].sender == k.1
    &&& forall|id: u16|
        #[trigger] m.messages.dom().contains(id) ==> m.endpoints.contains(
            (m.messages[id].recipient, m.messages[id].sender, id),
        )
}

/// A group's member list references only existing users.
pub open spec fn members_exist(m: StoreModel) -> bool {
    forall|g: u16, u: u16|
        #[trigger] m.groups.dom().contains(g) && #[trigger] m.groups[g].members.contains(u)
            ==> m.users.dom().contains(u)
}

pub open spec fn model_finite(m: StoreModel) -> bool {
    &&& m.users.dom().finite()
    &&& m.rev.dom().finite()
    &&& m.groups.dom().finite()
    &&& m.messages.dom().finite()
    &&& m.endpoints.finite()
}

/// Well-formedness: what holds of the model after every committed
/// operation.
pub open spec fn wf(m: StoreModel) -> bool {
    &&& model_finite(m)
    &&& users_consistent(m)
    &&& index_consistent(m)
    &&& members_exist(m)
}

/// Id allocation is "one past the current maximum key": `id` is strictly
/// above every existing key, and is either 0 or one past a present key.
/// Ids freed by deleting below the maximum are never reused; deleting the
/// maximal row itself lowers the maximum, so that one id can recur.
pub open spec fn is_next_key(dom: Set<u16>, id: u16) -> bool {
    &&& forall|k: u16| #[trigger] dom.contains(k) ==> k < id
    &&& id == 0 || dom.contains((id - 1) as u16)
}

// ------------------------------------------------------------------
// Transitions: what each mutating operation does to the model.
// ------------------------------------------------------------------

pub open spec fn create_user_tr(m: StoreModel, name: Seq<char>, id: u16) -> StoreModel {
    StoreModel { users: m.users.insert(id, name), rev: m.rev.insert(name, id), ..m }
}

pub open spec fn put_group_tr(m: StoreModel, gid: u16, name: Seq<char>, members: Seq<u16>) -> StoreModel {
    StoreModel { groups: m.groups.insert(gid, GroupView { name, members }), ..m }
}

/// The recipient a stored `(kind, recipient id)` column pair denotes:
/// kind 0 is a user, kind 1 a group.
pub open spec fn dec_rec(kind: u8, rid: u16) -> MessageRecipient {
    if kind == 0 {
        MessageRecipient::User(rid)
    } else {
        MessageRecipient::Group(rid)
    }
}

/// The message ids a delivery index lists for group `gid`.
pub open spec fn eps_group_ids(eps: Set<(MessageRecipient, u16, u16)>, gid: u16) -> Set<u16> {
    Set::new(
        |id: u16| exists|s: u16| eps.contains((MessageRecipient::Group(gid), s, id)),
    )
}

/// The message ids the delivery index of `m` lists for group `gid`.
pub open spec fn group_msg_ids(m: StoreModel, gid: u16) -> Set<u16> {
    eps_group_ids(m.endpoints, gid)
}

/// Deleting a group removes its row, every delivery-index entry addressed
/// to it, and every message those entries point at, atomically.
pub open spec fn delete_group_tr(m: StoreModel, gid: u16) -> StoreModel {
    StoreModel {
        groups: m.groups.remove(gid),
        messages: m.messages.remove_keys(group_msg_ids(m, gid)),
        endpoints: m.endpoints.filter(
            |k: (MessageRecipient, u16, u16)| k.0 != MessageRecipient::Group(gid),
        ),
        ..m
    }
}

pub open spec fn send_tr(m: StoreModel, id: u16, mv: MsgView) -> StoreModel {
    StoreModel {
        messages: m.messages.insert(id, mv),
        endpoints: m.endpoints.insert((mv.recipient, mv.sender, id)),
        ..m
    }
}

pub open spec fn delete_msg_tr(m: StoreModel, id: u16) -> StoreModel {
    StoreModel {
        messages: m.messages.remove(id),
        endpoints: m.endpoints.remove((m.messages[id].recipient, m.messages[id].sender, id)),
        ..m
    }
}

pub open spec fn edit_body_tr(m: StoreModel, id: u16, body: Seq<char>) -> StoreModel {
    StoreModel {
        messages: m.messages.insert(id, MsgView { body, ..m.messages[id] }),
        ..m
    }
}

pub open spec fn edit_tags_tr(m: StoreModel, id: u16, tags: Seq<Seq<char>>) -> StoreModel {
    StoreModel {
        messages: m.messages.insert(id, MsgView { tags, ..m.messages[id] }),
        ..m
    }
}

// ------------------------------------------------------------------
// Listings: a sequence enumerates a table exactly, in ascending id
// order.
// ------------------------------------------------------------------

/// `s` lists exactly the rows of the user table, ascending by id.
pub open spec fn listing_of_users(users: Map<u16, Seq<char>>, s: Seq<(u16, String)>) -> bool {
    &&& forall|i: int|
        0 <= i < s.len() ==> users.contains_pair((#[trigger] s[i]).0, s[i].1@)
    &&& forall|k: u16|
        #[trigger] users.dom().contains(k) ==> exists|i: int|
            0 <= i < s.len() && (#[trigger] s[i]).0 == k
    &&& forall|i: int, j: int| 0 <= i < j < s.len() ==> (#[trigger] s[i]).0 < (#[trigger] s[j]).0
}

/// `s` lists exactly the rows of the group table, ascending by id.
pub open spec fn listing_of_groups(
    groups: Map<u16, GroupView>,
    s: Seq<(u16, (String, Vec<u16>))>,
) -> bool {
    &&& forall|i: int|
        0 <= i < s.len() ==> groups.contains_pair(
            (#[trigger] s[i]).0,
            GroupView { name: s[i].1.0@, members: s[i].1.1@ },
        )
    &&& forall|k: u16|
        #[trigger] groups.dom().contains(k) ==> exists|i: int|
            0 <= i < s.len() && (#[trigger] s[i]).0 == k
    &&& forall|i: int, j: int| 0 <= i < j < s.len() ==> (#[trigger] s[i]).0 < (#[trigger] s[j]).0
}

/// `s` lists exactly the groups of which `user_id` is a member, ascending
/// by id, each with its stored name and member list.
pub open spec fn groups_for_user_listing(
    groups: Map<u16, GroupView>,
    user_id: u16,
    s: Seq<(u16, (String, Vec<u16>))>,
) -> bool {
    &&& forall|i: int|
        0 <= i < s.len() ==> groups.contains_pair(
            (#[trigger] s[i]).0,
            GroupView { name: s[i].1.0@, members: s[i].1.1@ },
        ) && s[i].1.1@.contains(user_id)
    &&& forall|k: u16|
        #[trigger] groups.dom().contains(k) && groups[k].members.contains(user_id) ==> exists|
            i: int,
        |
            0 <= i < s.len() && (#[trigger] s[i]).0 == k
    &&& forall|i: int, j: int| 0 <= i < j < s.len() ==> (#[trigger] s[i]).0 < (#[trigger] s[j]).0
}

// ------------------------------------------------------------------
// Invariant preservation.
// ------------------------------------------------------------------

/// Creating a user under a fresh id and an unused name keeps the store
/// well-formed.
pub proof fn lemma_create_user_wf(m: StoreModel, name: Seq<char>, id: u16)
    requires
        wf(m),
        !m.rev.dom().contains(name),
        forall|k: u16| #[trigger] m.users.dom().contains(k) ==> k < id,
    ensures
        wf(create_user_tr(m, name, id)),
{
    let m1 = create_user_tr(m, name, id);
    assert forall|id2: u16| #[trigger] m1.users.dom().contains(id2) implies m1.rev.contains_pair(
        m1.users[id2],
        id2,
    ) by {
        if id2 != id {
            assert(m.users.dom().contains(id2));
            assert(m.rev.contains_pair(m.users[id2], id2));
            if m.users[id2] == name {
                assert(m.rev.dom().contains(name));
            }
        }
    }
    assert forall|n: Seq<char>| #[trigger] m1.rev.dom().contains(n) implies m1.users.contains_pair(
        m1.rev[n],
        n,
    ) by {
        if n != name {
            assert(m.rev.dom().contains(n));
            assert(m.users.contains_pair(m.rev[n], n));
            assert(m.users.dom().contains(m.rev[n]));
        }
    }
    assert(members_exist(m1)) by {
        assert forall|g: u16, u: u16|
            #[trigger] m1.groups.dom().contains(g) && #[trigger] m1.groups[g].members.contains(u)
            implies m1.users.dom().contains(u) by {
            assert(m.users.dom().contains(u));
        }
    }
}

/// Writing a group row whose members all exist keeps the store
/// well-formed.
pub proof fn lemma_put_group_wf(m: StoreModel, gid: u16, name: Seq<char>, members: Seq<u16>)
    requires
        wf(m),
        forall|j: int| 0 <= j < members.len() ==> m.users.dom().contains(#[trigger] members[j]),
    ensures
        wf(put_group_tr(m, gid, name, members)),
{
    let m1 = put_group_tr(m, gid, name, members);
    assert forall|g: u16, u: u16|
        #[trigger] m1.groups.dom().contains(g) && #[trigger] m1.groups[g].members.contains(u)
        implies m1.users.dom().contains(u) by {
        if g == gid {
            let j = choose|j: int| 0 <= j < members.len() && members[j] == u;
            assert(m.users.dom().contains(members[j]));
        } else {
            assert(m.groups.dom().contains(g) && m.groups[g].members.contains(u));
        }
    }
}

/// The cascade delete of a group keeps the store well-formed: every
/// message it removes takes its index entry along, and no other message
/// loses its entry.
pub proof fn lemma_delete_group_wf(m: StoreModel, gid: u16)
    requires
        wf(m),
    ensures
        wf(delete_group_tr(m, gid)),
{
    broadcast use vstd::set_lib::lemma_set_subset_finite;

    let m1 = delete_group_tr(m, gid);
    let gone = group_msg_ids(m, gid);
    assert(m1.endpoints.subset_of(m.endpoints));
    assert(m1.messages.dom().subset_of(m.messages.dom()));
    assert forall|k: (MessageRecipient, u16, u16)| #[trigger] m1.endpoints.contains(k)
        implies m1.messages.dom().contains(k.2) && m1.messages[k.2].recipient == k.0
        && m1.messages[k.2].sender == k.1 by {
        assert(m.endpoints.contains(k) && k.0 != MessageRecipient::Group(gid));
        if gone.contains(k.2) {
            let s = choose|s: u16|
                m.endpoints.contains((MessageRecipient::Group(gid), s, k.2));
            assert(m.messages[k.2].recipient == MessageRecipient::Group(gid));
        }
    }
    assert forall|id: u16| #[trigger] m1.messages.dom().contains(id) implies m1.endpoints.contains(
        (m1.messages[id].recipient, m1.messages[id].sender, id),
    ) by {
        let ep = (m.messages[id].recipient, m.messages[id].sender, id);
        assert(m.endpoints.contains(ep));
        if m.messages[id].recipient == MessageRecipient::Group(gid) {
            assert(gone.contains(id));
        }
    }
    assert forall|g: u16, u: u16|
        #[trigger] m1.groups.dom().contains(g) && #[trigger] m1.groups[g].members.contains(u)
        implies m1.users.dom().contains(u) by {
        assert(m.groups.dom().contains(g) && m.groups[g].members.contains(u));
    }
}

/// Storing a message under a fresh id together with its index entry keeps
/// the store well-formed.
pub proof fn lemma_send_wf(m: StoreModel, id: u16, mv: MsgView)
    requires
        wf(m),
        !m.messages.dom().contains(id),
    ensures
        wf(send_tr(m, id, mv)),
{
    let m1 = send_tr(m, id, mv);
    assert forall|k: (MessageRecipient, u16, u16)| #[trigger] m1.endpoints.contains(k)
        implies m1.messages.dom().contains(k.2) && m1.messages[k.2].recipient == k.0
        && m1.messages[k.2].sender == k.1 by {
        if k != (mv.recipient, mv.sender, id) {
            assert(m.endpoints.contains(k));
            assert(m.messages.dom().contains(k.2));
        }
    }
    assert forall|id2: u16| #[trigger] m1.messages.dom().contains(id2)
        implies m1.endpoints.contains(
        (m1.messages[id2].recipient, m1.messages[id2].sender, id2),
    ) by {
        if id2 != id {
            assert(m.messages.dom().contains(id2));
            assert(m.endpoints.contains((m.messages[id2].recipient, m.messages[id2].sender, id2)));
        }
    }
    assert forall|g: u16, u: u16|
        #[trigger] m1.groups.dom().contains(g) && #[trigger] m1.groups[g].members.contains(u)
        implies m1.users.dom().contains(u) by {
        assert(m.groups.dom().contains(g) && m.groups[g].members.contains(u));
    }
}

/// Removing a message together with its own index entry keeps the store
/// well-formed.
pub proof fn lemma_delete_msg_wf(m: StoreModel, id: u16)
    requires
        wf(m),
        m.messages.dom().contains(id),
    ensures
        wf(delete_msg_tr(m, id)),
{
    let m1 = delete_msg_tr(m, id);
    let gone = (m.messages[id].recipient, m.messages[id].sender, id);
    assert forall|k: (MessageRecipient, u16, u16)| #[trigger] m1.endpoints.contains(k)
        implies m1.messages.dom().contains(k.2) && m1.messages[k.2].recipient == k.0
        && m1.messages[k.2].sender == k.1 by {
        assert(m.endpoints.contains(k) && k != gone);
        if k.2 == id {
            assert(k.0 == m.messages[id].recipient && k.1 == m.messages[id].sender);
        }
    }
    assert forall|id2: u16| #[trigger] m1.messages.dom().contains(id2)
        implies m1.endpoints.contains(
        (m1.messages[id2].recipient, m1.messages[id2].sender, id2),
    ) by {
        assert(m.messages.dom().contains(id2) && id2 != id);
        assert(m.endpoints.contains((m.messages[id2].recipient, m.messages[id2].sender, id2)));
    }
    assert forall|g: u16, u: u16|
        #[trigger] m1.groups.dom().contains(g) && #[trigger] m1.groups[g].members.contains(u)
        implies m1.users.dom().contains(u) by {
        assert(m.groups.dom().contains(g) && m.groups[g].members.contains(u));
    }
}

/// Replacing a message row while keeping its sender and recipient keeps
/// the store well-formed; the index entry is untouched and still matches.
pub proof fn lemma_replace_msg_wf(m: StoreModel, id: u16, mv: MsgView)
    requires
        wf(m),
        m.messages.dom().contains(id),
        mv.recipient == m.messages[id].recipient,
        mv.sender == m.messages[id].sender,
    ensures
        wf(StoreModel { messages: m.messages.insert(id, mv), ..m }),
{
    let m1 = StoreModel { messages: m.messages.insert(id, mv), ..m };
    assert forall|k: (MessageRecipient, u16, u16)| #[trigger] m1.endpoints.contains(k)
        implies m1.messages.dom().contains(k.2) && m1.messages[k.2].recipient == k.0
        && m1.messages[k.2].sender == k.1 by {
        assert(m.endpoints.contains(k));
        assert(m.messages.dom().contains(k.2));
    }
    assert forall|id2: u16| #[trigger] m1.messages.dom().contains(id2)
        implies m1.endpoints.contains(
        (m1.messages[id2].recipient, m1.messages[id2].sender, id2),
    ) by {
        assert(m.messages.dom().contains(id2));
        assert(m.endpoints.contains((m.messages[id2].recipient, m.messages[id2].sender, id2)));
    }
    assert forall|g: u16, u: u16|
        #[trigger] m1.groups.dom().contains(g) && #[trigger] m1.groups[g].members.contains(u)
        implies m1.users.dom().contains(u) by {
        assert(m.groups.dom().contains(g) && m.groups[g].members.contains(u));
    }
}

// ------------------------------------------------------------------
// Permissions.
// ------------------------------------------------------------------

/// Whether `uid` may delete message `id`: its sender, its direct
/// recipient, or a current member of its recipient group.
pub open spec fn may_delete(m: StoreModel, id: u16, uid: u16) -> bool {
    ||| m.messages[id].sender == uid
    ||| m.messages[id].recipient == MessageRecipient::User(uid)
    ||| (m.messages[id].recipient matches MessageRecipient::Group(g) && m.groups.dom().contains(g)
        && m.groups[g].members.contains(uid))
}

// ------------------------------------------------------------------
// Query specifications.
// ------------------------------------------------------------------

/// Every u16 id in ascending order.
pub open spec fn all_ids() -> Seq<u16> {
    Seq::new(0x10000, |i: int| i as u16)
}

/// The messages of the conversation between users `a` and `b`: sent by
/// either one and addressed to the other.
pub open spec fn user_conv_pred(m: StoreModel, a: u16, b: u16) -> spec_fn(u16) -> bool {
    |id: u16|
        m.messages.dom().contains(id) && ((m.messages[id].sender == b
            && m.messages[id].recipient == MessageRecipient::User(a)) || (
        m.messages[id].sender == a && m.messages[id].recipient == MessageRecipient::User(b)))
}

/// The messages addressed to group `g`.
pub open spec fn group_msg_pred(m: StoreModel, g: u16) -> spec_fn(u16) -> bool {
    |id: u16|
        m.messages.dom().contains(id) && m.messages[id].recipient == MessageRecipient::Group(g)
}

/// `(id, message)` pairs matching `pred`, in ascending id order.
pub open spec fn messages_matching(m: StoreModel, pred: spec_fn(u16) -> bool) -> Seq<
    (u16, MsgView),
> {
    all_ids().filter(pred).map_values(|id: u16| (id, m.messages[id]))
}

/// What `get_messages` returns for a user recipient.
pub open spec fn user_messages_spec(m: StoreModel, a: u16, b: u16) -> Seq<(u16, MsgView)> {
    messages_matching(m, user_conv_pred(m, a, b))
}

/// What `get_messages` returns for a group recipient.
pub open spec fn group_messages_spec(m: StoreModel, g: u16) -> Seq<(u16, MsgView)> {
    messages_matching(m, group_msg_pred(m, g))
}

/// The views of a sequence of `(id, message)` pairs.
pub open spec fn view_pairs(s: Seq<(u16, crate::types::Message)>) -> Seq<(u16, MsgView)> {
    s.map_values(|p: (u16, crate::types::Message)| (p.0, p.1@))
}

/// One step of scanning the id space in ascending order: extending the
/// scanned prefix by `n` extends its filtered sequence by `n` exactly when
/// `pred(n)` holds.
pub proof fn lemma_prefix_filter_step(n: int, pred: spec_fn(u16) -> bool)
    requires
        0 <= n < 0x10000,
    ensures
        Seq::new((n + 1) as nat, |j: int| j as u16).filter(pred) == if pred(n as u16) {
            Seq::new(n as nat, |j: int| j as u16).filter(pred).push(n as u16)
        } else {
            Seq::new(n as nat, |j: int| j as u16).filter(pred)
        },
{
    broadcast use Seq::lemma_filter_push;

    let prev = Seq::new(n as nat, |j: int| j as u16);
    let cur = Seq::new((n + 1) as nat, |j: int| j as u16);
    assert(cur =~= prev.push(n as u16));
}

/// One step of building the `(id, message)` pairs of an ascending id
/// scan: the result grows by `(n, messages[n])` exactly when `pred(n)`
/// holds.
pub proof fn lemma_scan_step(
    m: StoreModel,
    pred: spec_fn(u16) -> bool,
    n: int,
    prev: Seq<(u16, MsgView)>,
    cur: Seq<(u16, MsgView)>,
)
    requires
        0 <= n < 0x10000,
        prev == Seq::new(n as nat, |j: int| j as u16).filter(pred).map_values(
            |id: u16| (id, m.messages[id]),
        ),
        cur == if pred(n as u16) {
            prev.push((n as u16, m.messages[n as u16]))
        } else {
            prev
        },
    ensures
        cur == Seq::new((n + 1) as nat, |j: int| j as u16).filter(pred).map_values(
            |id: u16| (id, m.messages[id]),
        ),
{
    lemma_prefix_filter_step(n, pred);
    let g = |id: u16| (id, m.messages[id]);
    let pf = Seq::new(n as nat, |j: int| j as u16).filter(pred);
    if pred(n as u16) {
        assert(pf.push(n as u16).map_values(g) =~= pf.map_values(g).push(g(n as u16)));
    }
}

// ------------------------------------------------------------------
// Username validity.
// ------------------------------------------------------------------

/// Usernames may hold only ASCII letters, digits and underscores.
pub open spec fn valid_username_char(c: char) -> bool {
    ('a' <= c && c <= 'z') || ('A' <= c && c <= 'Z') || ('0' <= c && c <= '9') || c == '_'
}

pub open spec fn valid_username(s: Seq<char>) -> bool {
    forall|i: int| 0 <= i < s.len() ==> valid_username_char(#[trigger] s[i])
}

} // verus!
