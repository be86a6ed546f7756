//! Global laws of the store, stated over its model and proved once and
//! for all: username uniqueness, id allocation order, the bijection
//! between messages and the delivery index, conversation symmetry, and
//! what a cascade delete removes.

use vstd::prelude::*;

use crate::model::{
    create_user_tr, delete_group_tr, group_msg_ids, is_next_key, user_conv_pred,
    user_messages_spec, wf, StoreModel,
};
use crate::types::MessageRecipient;

verus! {

/// Usernames are unique: once a `create_user` with `name` has succeeded
/// (which its contract allows only while `name` is unbound), `name` is
/// bound in the reverse table of the resulting store. By the contract of
/// `create_user`, any later call with the same name then returns
/// `UsernameInUse` (or reports a storage failure) and leaves the whole
/// model — `list_users` included — unchanged.
pub proof fn lemma_username_uniqueness(m: StoreModel, name: Seq<char>, id: u16)
    requires
        wf(m),
        !m.rev.dom().contains(name),
    ensures
        create_user_tr(m, name, id).rev.dom().contains(name),
{
}

/// Ids are strictly increasing: whatever key a table allocates next
/// (`is_next_key`, as ensured by `create_user`, `create_update_group` and
/// `send_message`), allocating again after inserting the first key yields
/// a strictly greater key.
pub proof fn lemma_next_key_monotonic(dom: Set<u16>, id1: u16, id2: u16)
    requires
        is_next_key(dom, id1),
        is_next_key(dom.insert(id1), id2),
    ensures
        id2 > id1,
{
    assert(dom.insert(id1).contains(id1));
}

/// A table whose keys are exactly `0 .. n`.
pub open spec fn dense_run(dom: Set<u16>, n: u16) -> bool {
    forall|k: u16| #[trigger] dom.contains(k) <==> k < n
}

/// Absent deletions, allocation stays dense: on a table whose keys are
/// exactly `0 .. n`, the allocated key is `n` itself, and the table then
/// holds exactly `0 .. n + 1`. Starting from the empty table, `N`
/// consecutive creates therefore receive ids `0, 1, .., N - 1`.
pub proof fn lemma_next_key_dense(dom: Set<u16>, n: u16, id: u16)
    requires
        dense_run(dom, n),
        is_next_key(dom, id),
    ensures
        id == n,
        n < u16::MAX ==> dense_run(dom.insert(id), (n + 1) as u16),
{
    if id < n {
        assert(dom.contains(id));
    }
    if id > n {
        assert(!dom.contains((id - 1) as u16));
    }
}

/// The image of a finite set under an injective function has the same
/// cardinality.
proof fn lemma_injective_map_len<A, B>(s: Set<A>, f: spec_fn(A) -> B)
    requires
        s.finite(),
        forall|x: A, y: A| s.contains(x) && s.contains(y) && f(x) == f(y) ==> x == y,
    ensures
        s.map(f).finite(),
        s.map(f).len() == s.len(),
    decreases s.len(),
{
    s.lemma_map_finite(f);
    if s.len() == 0 {
        s.lemma_len0_is_empty();
        assert(s.map(f) =~= Set::empty());
    } else {
        if s =~= Set::<A>::empty() {
            assert(false);
        }
        let a = s.choose();
        assert(s.contains(a));
        let rest = s.remove(a);
        lemma_injective_map_len(rest, f);
        assert forall|b: B| #[trigger] s.map(f).contains(b) implies rest.map(f).insert(
            f(a),
        ).contains(b) by {
            let x = choose|x: A| s.contains(x) && f(x) == b;
            if x != a {
                assert(rest.contains(x));
                assert(rest.map(f).contains(b));
            }
        }
        assert forall|b: B| #[trigger] rest.map(f).insert(f(a)).contains(b) implies s.map(
            f,
        ).contains(b) by {
            if b == f(a) {
                assert(s.contains(a));
            } else {
                let x = choose|x: A| rest.contains(x) && f(x) == b;
                assert(s.contains(x));
            }
        }
        assert(s.map(f) =~= rest.map(f).insert(f(a)));
        assert(!rest.map(f).contains(f(a))) by {
            if rest.map(f).contains(f(a)) {
                let x = choose|x: A| rest.contains(x) && f(x) == f(a);
                assert(s.contains(x));
            }
        }
    }
}

/// The delivery index and the message table are in bijection: in every
/// well-formed store there are exactly as many index entries as message
/// rows, whatever sequence of sends, deletes and group cascades led
/// there.
pub proof fn lemma_index_message_bijection(m: StoreModel)
    requires
        wf(m),
    ensures
        m.endpoints.len() == m.messages.dom().len(),
{
    let f = |id: u16| (m.messages[id].recipient, m.messages[id].sender, id);
    assert forall|k: (MessageRecipient, u16, u16)| #[trigger] m.endpoints.contains(k)
        implies m.messages.dom().map(f).contains(k) by {
        assert(m.messages.dom().contains(k.2));
        assert(f(k.2) == k);
    }
    assert forall|k: (MessageRecipient, u16, u16)| #[trigger] m.messages.dom().map(f).contains(k)
        implies m.endpoints.contains(k) by {
        let id = choose|id: u16| m.messages.dom().contains(id) && f(id) == k;
        assert(m.endpoints.contains((m.messages[id].recipient, m.messages[id].sender, id)));
    }
    assert(m.endpoints =~= m.messages.dom().map(f));
    lemma_injective_map_len(m.messages.dom(), f);
}

/// Filtering decides by the elements alone: two predicates that agree on
/// every element of the sequence filter it identically.
proof fn lemma_filter_congruence<A>(s: Seq<A>, p1: spec_fn(A) -> bool, p2: spec_fn(A) -> bool)
    requires
        forall|i: int| 0 <= i < s.len() ==> p1(#[trigger] s[i]) == p2(s[i]),
    ensures
        s.filter(p1) == s.filter(p2),
    decreases s.len(),
{
    broadcast use Seq::lemma_filter_push;

    if s.len() > 0 {
        let rest = s.drop_last();
        lemma_filter_congruence(rest, p1, p2);
        assert(s =~= rest.push(s.last()));
    } else {
        assert(s.filter(p1) =~= s.filter(p2));
    }
}

/// Conversations are symmetric: the messages between users `a` and `b`
/// are the same sequence — same ids, same contents, same order — no
/// matter which of the two asks, and regardless of who sent which.
pub proof fn lemma_user_messages_symmetric(m: StoreModel, a: u16, b: u16)
    ensures
        user_messages_spec(m, a, b) == user_messages_spec(m, b, a),
{
    let p1 = user_conv_pred(m, a, b);
    let p2 = user_conv_pred(m, b, a);
    assert forall|i: int| 0 <= i < crate::model::all_ids().len() implies p1(
        #[trigger] crate::model::all_ids()[i],
    ) == p2(crate::model::all_ids()[i]) by {
    }
    lemma_filter_congruence(crate::model::all_ids(), p1, p2);
}

/// Cascade delete removes exactly the group's messages: after deleting
/// group `gid`, a message row survives if and only if it existed before
/// and was not addressed to `gid`, and every surviving row is untouched.
pub proof fn lemma_cascade_delete(m: StoreModel, gid: u16)
    requires
        wf(m),
    ensures
        forall|id: u16|
            #[trigger] delete_group_tr(m, gid).messages.dom().contains(id) <==> (
            m.messages.dom().contains(id) && m.messages[id].recipient
                != MessageRecipient::Group(gid)),
        forall|id: u16|
            #[trigger] delete_group_tr(m, gid).messages.dom().contains(id) ==> delete_group_tr(
                m,
                gid,
            ).messages[id] == m.messages[id],
{
    let gone = group_msg_ids(m, gid);
    assert forall|id: u16| #[trigger] m.messages.dom().contains(id) implies (gone.contains(id)
        <==> m.messages[id].recipient == MessageRecipient::Group(gid)) by {
        if gone.contains(id) {
            let s = choose|s: u16| m.endpoints.contains((MessageRecipient::Group(gid), s, id));
            assert(m.messages[id].recipient == MessageRecipient::Group(gid));
        }
        if m.messages[id].recipient == MessageRecipient::Group(gid) {
            assert(m.endpoints.contains((m.messages[id].recipient, m.messages[id].sender, id)));
            assert(gone.contains(id));
        }
    }
}

} // verus!
