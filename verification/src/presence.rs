//! The presence registry: which users currently have a live connection.
//!
//! The registry itself holds only the user ids; the embedding process
//! keeps the matching delivery-channel handles beside it and uses the
//! target ids the session layer computes. Reads are frequent (every
//! broadcast or targeted send), writes happen only on login and
//! disconnect.

use vstd::prelude::*;

verus! {

broadcast use vstd::seq_lib::group_seq_properties;

/// The set of user ids with a live connection.
pub struct Presence {
    pub ids: Vec<u16>,
}

impl Presence {
    /// The registry as a set of user ids.
    pub open spec fn view(self) -> Set<u16> {
        self.ids@.to_set()
    }

    /// No id is registered twice.
    pub open spec fn wf(self) -> bool {
        forall|i: int, j: int|
            0 <= i < j < self.ids@.len() ==> (#[trigger] self.ids@[i]) != (#[trigger] self.ids@[j])
    }

    /// An empty registry: nobody is online.
    pub fn new() -> (p: Presence)
        ensures
            p.wf(),
            p.view() == Set::<u16>::empty(),
    {
        let p = Presence { ids: Vec::new() };
        proof {
            assert(p.view() =~= Set::<u16>::empty());
        }
        p
    }

    /// Whether the user currently has a live connection.
    pub fn is_online(&self, id: u16) -> (r: bool)
        ensures
            r == self.view().contains(id),
    {
        let mut i: usize = 0;
        while i < self.ids.len()
            invariant
                0 <= i <= self.ids@.len(),
                forall|j: int| 0 <= j < i ==> self.ids@[j] != id,
            decreases self.ids@.len() - i,
        {
            if self.ids[i] == id {
                proof {
                    assert(self.ids@.contains(id));
                }
                return true;
            }
            i += 1;
        }
        proof {
            assert(!self.ids@.contains(id));
        }
        false
    }

    /// Record a login, displacing nothing: registering an id that is
    /// already present changes nothing. Returns whether the id was newly
    /// registered.
    pub fn register(&mut self, id: u16) -> (r: bool)
        requires
            old(self).wf(),
        ensures
            final(self).wf(),
            final(self).view() == old(self).view().insert(id),
            r == !old(self).view().contains(id),
    {
        if self.is_online(id) {
            proof {
                assert(self.view() =~= self.view().insert(id));
            }
            return false;
        }
        let ghost olds = self.ids@;
        self.ids.push(id);
        proof {
            assert(forall|j: int| 0 <= j < olds.len() ==> #[trigger] self.ids@[j] == olds[j]);
            assert(!olds.to_set().contains(id));
            assert(self.view() =~= olds.to_set().insert(id));
        }
        true
    }

    /// Record a disconnect: the id is no longer online.
    pub fn unregister(&mut self, id: u16)
        requires
            old(self).wf(),
        ensures
            final(self).wf(),
            final(self).view() == old(self).view().remove(id),
    {
        let ghost olds = self.ids@;
        let mut out: Vec<u16> = Vec::new();
        let mut i: usize = 0;
        while i < self.ids.len()
            invariant
                0 <= i <= olds.len(),
                self.ids@ == olds,
                olds == old(self).ids@,
                old(self).wf(),
                forall|x: u16|
                    #[trigger] out@.contains(x) <==> (olds.subrange(0, i as int).contains(x) && x
                        != id),
                forall|x1: int, x2: int|
                    0 <= x1 < x2 < out@.len() ==> (#[trigger] out@[x1]) != (#[trigger] out@[x2]),
                forall|x: int|
                    0 <= x < out@.len() ==> olds.contains(#[trigger] out@[x]),
            decreases olds.len() - i,
        {
            let ghost oldout = out@;
            let x = self.ids[i];
            if x != id {
                proof {
                    if oldout.contains(x) {
                        let k = choose|k: int| 0 <= k < i && olds.subrange(0, i as int)[k] == x;
                        assert(olds[k] == olds[i as int]);
                    }
                }
                out.push(x);
            }
            proof {
                assert(olds.subrange(0, i + 1 as int) =~= olds.subrange(0, i as int).push(
                    olds[i as int],
                ));
                assert forall|y: u16| #[trigger] out@.contains(y) implies (olds.subrange(
                    0,
                    i + 1 as int,
                ).contains(y) && y != id) by {
                    if oldout.contains(y) {
                        let k = choose|k: int|
                            0 <= k < i && olds.subrange(0, i as int)[k] == y;
                        assert(olds.subrange(0, i + 1 as int)[k] == y);
                    } else {
                        assert(olds.subrange(0, i + 1 as int)[i as int] == y);
                    }
                }
                assert forall|y: u16|
                    olds.subrange(0, i + 1 as int).contains(y) && y != id implies #[trigger] out@
                    .contains(y) by {
                    let k = choose|k: int|
                        0 <= k < i + 1 && #[trigger] olds.subrange(0, i + 1 as int)[k] == y;
                    if k < i {
                        assert(olds.subrange(0, i as int)[k] == y);
                    }
                }
            }
            i += 1;
        }
        proof {
            assert(olds.subrange(0, olds.len() as int) =~= olds);
        }
        self.ids = out;
        proof {
            assert(self.view() =~= olds.to_set().remove(id));
        }
    }

    /// The ids of every online user, for broadcasts.
    pub fn snapshot(&self) -> (v: Vec<u16>)
        ensures
            v@ == self.ids@,
            forall|x: u16| #[trigger] v@.contains(x) <==> self.view().contains(x),
    {
        let mut out: Vec<u16> = Vec::new();
        let mut i: usize = 0;
        while i < self.ids.len()
            invariant
                0 <= i <= self.ids@.len(),
                out@ == self.ids@.subrange(0, i as int),
            decreases self.ids@.len() - i,
        {
            out.push(self.ids[i]);
            proof {
                assert(out@ =~= self.ids@.subrange(0, i + 1 as int));
            }
            i += 1;
        }
        proof {
            assert(out@ =~= self.ids@);
        }
        out
    }
}

} // verus!
