//! The item store: an ordered mapping from issued id to title, together with
//! the counter that issues fresh ids. Ids are issued in ascending order,
//! starting at 0, and are never reused, even after a removal.

use vstd::prelude::*;
use crate::model::StoreState;
use crate::model::distinct_ids;
use crate::model::empty_state;
use crate::model::lemma_map_of_props;
use crate::model::lemma_map_of_remove;
use crate::model::map_of;
use crate::model::spec_insert;
use crate::model::spec_remove;
use crate::model::state_inv;

verus! {

/// A list of todo items where each item corresponds to a unique numerical
/// identifier. The entries are kept in ascending id order.
pub struct TodoItems {
    items: Vec<(u64, String)>,
    next_id: u64,
}

impl TodoItems {
    /// The stored entries, in order, as mathematical values.
    pub closed spec fn entry_seq(self) -> Seq<(u64, Seq<char>)> {
        self.items@.map_values(|p: (u64, String)| (p.0, p.1@))
    }

    /// The id counter; equals the id the next insertion will issue.
    pub closed spec fn spec_next_id(self) -> u64 {
        self.next_id
    }

    /// Well-formedness: entries are strictly sorted by id (hence ids are
    /// unique), and every stored id is below the counter.
    pub open spec fn wf(self) -> bool {
        &&& forall|i: int, j: int|
            #![trigger self.entry_seq()[i], self.entry_seq()[j]]
            0 <= i < j < self.entry_seq().len() ==> self.entry_seq()[i].0 < self.entry_seq()[j].0
        &&& forall|i: int|
            #![trigger self.entry_seq()[i]]
            0 <= i < self.entry_seq().len() ==> self.entry_seq()[i].0 < self.spec_next_id()
    }

    /// Whether an item with this id is stored.
    pub open spec fn contains_id(self, id: u64) -> bool {
        exists|k: int| 0 <= k < self.entry_seq().len() && self.entry_seq()[k].0 == id
    }

    /// The position of the entry with this id (meaningful when `contains_id`).
    pub open spec fn idx_of(self, id: u64) -> int {
        choose|k: int| 0 <= k < self.entry_seq().len() && self.entry_seq()[k].0 == id
    }

    /// The title stored under this id (meaningful when `contains_id`).
    pub open spec fn title_of(self, id: u64) -> Seq<char> {
        self.entry_seq()[self.idx_of(id)].1
    }

    /// The store's mathematical state: the denoted mapping and the counter.
    pub open spec fn state(self) -> StoreState {
        StoreState { items: map_of(self.entry_seq()), next: self.spec_next_id() as int }
    }

    /// A well-formed store's entries carry pairwise distinct ids.
    pub proof fn lemma_wf_distinct(self)
        requires
            self.wf(),
        ensures
            distinct_ids(self.entry_seq()),
    {
    }

    /// A well-formed store's state satisfies the model's invariant.
    pub proof fn lemma_state_inv(self)
        requires
            self.wf(),
        ensures
            state_inv(self.state()),
    {
        self.lemma_wf_distinct();
        lemma_map_of_props(self.entry_seq());
        assert forall|id: int| #[trigger] self.state().items.dom().contains(id) implies id
            < self.state().next by {
            let k = choose|k: int|
                0 <= k < self.entry_seq().len() && #[trigger] self.entry_seq()[k].0 as int == id;
            assert(self.entry_seq()[k].0 < self.spec_next_id());
        }
    }

    /// A well-formed store lists exactly as many entries as its state holds
    /// items, so the counting law over operation sequences speaks of what
    /// `list` returns.
    pub proof fn lemma_list_len(self)
        requires
            self.wf(),
        ensures
            self.entry_seq().len() == self.state().items.dom().len(),
    {
        self.lemma_wf_distinct();
        crate::model::lemma_map_of_len(self.entry_seq());
    }

    /// Creates a blank list of todo items.
    pub fn new() -> (r: TodoItems)
        ensures
            r.wf(),
            r.entry_seq() == Seq::<(u64, Seq<char>)>::empty(),
            r.spec_next_id() == 0,
            r.state() == empty_state(),
    {
        let r = TodoItems { items: Vec::new(), next_id: 0 };
        proof {
            assert(r.entry_seq() =~= Seq::<(u64, Seq<char>)>::empty());
        }
        r
    }

    /// Whether another item can be inserted without exhausting the id space.
    pub fn has_capacity(&self) -> (r: bool)
        ensures
            r == (self.spec_next_id() < u64::MAX),
    {
        self.next_id < u64::MAX
    }

    /// Inserts a new todo item with a title, returning its automatically
    /// issued identifier: the current counter value, after which the counter
    /// advances by one.
    pub fn insert(&mut self, title: String) -> (id: u64)
        requires
            old(self).wf(),
            old(self).spec_next_id() < u64::MAX,
        ensures
            final(self).wf(),
            id == old(self).spec_next_id(),
            !old(self).contains_id(id),
            final(self).spec_next_id() == old(self).spec_next_id() + 1,
            final(self).entry_seq() == old(self).entry_seq().push((id, title@)),
            final(self).state() == spec_insert(old(self).state(), title@).0,
            id as int == spec_insert(old(self).state(), title@).1,
    {
        let id = self.next_id;
        let ghost pre = self.entry_seq();
        self.items.push((id, title));
        self.next_id = self.next_id + 1;
        proof {
            assert(self.entry_seq() =~= pre.push((id, title@)));
            assert(self.entry_seq().drop_last() =~= pre);
            assert(self.state().items == map_of(pre).insert(id as int, title@));
        }
        id
    }

    /// Removes and returns a todo item by its identifier. If the identifier
    /// does not exist, `None` is returned and the store is unchanged. The
    /// id counter is never touched, so a removed id is never reissued.
    pub fn remove(&mut self, id: u64) -> (r: Option<String>)
        requires
            old(self).wf(),
        ensures
            final(self).wf(),
            final(self).spec_next_id() == old(self).spec_next_id(),
            old(self).contains_id(id) ==> {
                &&& r matches Some(t) && t@ == old(self).title_of(id)
                &&& final(self).entry_seq() == old(self).entry_seq().remove(old(self).idx_of(id))
            },
            !old(self).contains_id(id) ==> r is None && *final(self) == *old(self),
            final(self).state() == spec_remove(old(self).state(), id as int).0,
            (match r {
                Option::Some(t) => Option::Some(t@),
                Option::None => Option::None,
            }) == spec_remove(old(self).state(), id as int).1,
    {
        let ghost pre = *self;
        let n = self.items.len();
        let mut i: usize = 0;
        while i < n
            invariant
                *self == pre,
                pre == *old(self),
                pre.wf(),
                n == self.items.len(),
                i <= n,
                forall|k: int| 0 <= k < i ==> self.entry_seq()[k].0 != id,
            decreases n - i,
        {
            if self.items[i].0 == id {
                proof {
                    assert(pre.entry_seq()[i as int].0 == id);
                    assert(pre.contains_id(id));
                    let w = pre.idx_of(id);
                    assert(0 <= w < pre.entry_seq().len() && pre.entry_seq()[w].0 == id);
                    if w != i {
                        assert(pre.entry_seq()[w].0 == pre.entry_seq()[i as int].0);
                        if w < i {
                            assert(pre.entry_seq()[w].0 < pre.entry_seq()[i as int].0);
                        } else {
                            assert(pre.entry_seq()[i as int].0 < pre.entry_seq()[w].0);
                        }
                        assert(false);
                    }
                }
                let (_, title) = self.items.remove(i);
                proof {
                    assert(self.entry_seq() =~= pre.entry_seq().remove(i as int));
                    pre.lemma_wf_distinct();
                    lemma_map_of_props(pre.entry_seq());
                    assert(pre.entry_seq()[i as int].0 as int == id as int);
                    assert(map_of(pre.entry_seq()).dom().contains(id as int));
                    lemma_map_of_remove(pre.entry_seq(), i as int);
                    assert(map_of(pre.entry_seq())[id as int] == pre.entry_seq()[i as int].1);
                    assert(self.state().items == map_of(pre.entry_seq()).remove(id as int));
                    assert forall|a: int, b: int|
                        0 <= a < b < self.entry_seq().len() implies self.entry_seq()[a].0
                        < self.entry_seq()[b].0 by {
                        let pa = if a < i { a } else { a + 1 };
                        let pb = if b < i { b } else { b + 1 };
                        assert(pre.entry_seq()[pa].0 < pre.entry_seq()[pb].0);
                    }
                    assert forall|a: int|
                        0 <= a < self.entry_seq().len() implies self.entry_seq()[a].0
                        < self.spec_next_id() by {
                        let pa = if a < i { a } else { a + 1 };
                        assert(pre.entry_seq()[pa].0 < pre.spec_next_id());
                    }
                }
                return Some(title);
            }
            i = i + 1;
        }
        proof {
            assert(!pre.contains_id(id));
            pre.lemma_wf_distinct();
            lemma_map_of_props(pre.entry_seq());
            if map_of(pre.entry_seq()).dom().contains(id as int) {
                let k = choose|k: int|
                    0 <= k < pre.entry_seq().len() && #[trigger] pre.entry_seq()[k].0 as int
                        == id as int;
                assert(pre.entry_seq()[k].0 == id);
                assert(false);
            }
        }
        None
    }

    /// A read-only snapshot of the items in ascending id order, for
    /// serialization; the id counter is not touched.
    pub fn list(&self) -> (r: Vec<(u64, String)>)
        ensures
            r@.len() == self.entry_seq().len(),
            forall|k: int|
                0 <= k < r@.len() ==> r@[k].0 == self.entry_seq()[k].0 && r@[k].1@
                    == self.entry_seq()[k].1,
    {
        let n = self.items.len();
        let mut out: Vec<(u64, String)> = Vec::new();
        let mut i: usize = 0;
        while i < n
            invariant
                n == self.items.len(),
                i <= n,
                out@.len() == i,
                forall|k: int|
                    0 <= k < i ==> out@[k].0 == self.entry_seq()[k].0 && out@[k].1@
                        == self.entry_seq()[k].1,
            decreases n - i,
        {
            let id = self.items[i].0;
            let title = self.items[i].1.clone();
            out.push((id, title));
            i = i + 1;
        }
        out
    }
}

} // verus!
