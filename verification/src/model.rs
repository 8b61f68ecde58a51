//! The store's mathematical model: a mapping from issued id to title and
//! the id counter, with one transition per store operation. The contracts
//! of the store's methods state their effect in terms of these transitions,
//! and the laws about operation sequences are proved over them.

use vstd::prelude::*;

verus! {

/// The abstract state of the item store.
pub struct StoreState {
    pub items: Map<int, Seq<char>>,
    pub next: int,
}

/// The state of a store holding nothing, with the counter at zero.
pub open spec fn empty_state() -> StoreState {
    StoreState { items: Map::empty(), next: 0 }
}

/// The model's invariant: finitely many items, every stored id below the
/// counter (so the counter's id is always fresh).
pub open spec fn state_inv(s: StoreState) -> bool {
    &&& s.items.dom().finite()
    &&& forall|id: int| #[trigger] s.items.dom().contains(id) ==> id < s.next
}

/// One insertion, as `TodoItems::insert` ensures it: the issued id is the
/// counter's value, the pair is stored under it, the counter advances.
pub open spec fn spec_insert(s: StoreState, title: Seq<char>) -> (StoreState, int) {
    (StoreState { items: s.items.insert(s.next, title), next: s.next + 1 }, s.next)
}

/// One removal, as `TodoItems::remove` ensures it: a stored id yields its
/// title and leaves; an absent id changes nothing and yields nothing. The
/// counter never moves.
pub open spec fn spec_remove(s: StoreState, id: int) -> (StoreState, Option<Seq<char>>) {
    if s.items.dom().contains(id) {
        (StoreState { items: s.items.remove(id), next: s.next }, Option::Some(s.items[id]))
    } else {
        (s, Option::None)
    }
}

/// Whether entries carry pairwise distinct ids.
pub open spec fn distinct_ids(es: Seq<(u64, Seq<char>)>) -> bool {
    forall|i: int, j: int|
        #![trigger es[i], es[j]]
        0 <= i < j < es.len() ==> es[i].0 != es[j].0
}

/// The mapping that a sequence of entries denotes.
pub open spec fn map_of(es: Seq<(u64, Seq<char>)>) -> Map<int, Seq<char>>
    decreases es.len(),
{
    if es.len() == 0 {
        Map::empty()
    } else {
        map_of(es.drop_last()).insert(es.last().0 as int, es.last().1)
    }
}

/// With distinct ids, the denoted mapping holds exactly the entries' ids,
/// each mapped to its entry's title.
pub proof fn lemma_map_of_props(es: Seq<(u64, Seq<char>)>)
    requires
        distinct_ids(es),
    ensures
        forall|x: int|
            #[trigger] map_of(es).dom().contains(x) <==> exists|k: int|
                0 <= k < es.len() && #[trigger] es[k].0 as int == x,
        forall|k: int| 0 <= k < es.len() ==> map_of(es)[#[trigger] es[k].0 as int] == es[k].1,
        map_of(es).dom().finite(),
    decreases es.len(),
{
    if es.len() > 0 {
        let dl = es.drop_last();
        assert(distinct_ids(dl)) by {
            assert(forall|i: int| 0 <= i < dl.len() ==> dl[i] == es[i]);
        }
        lemma_map_of_props(dl);
        assert forall|x: int| #[trigger] map_of(es).dom().contains(x) implies exists|k: int|
            0 <= k < es.len() && #[trigger] es[k].0 as int == x by {
            if x == es.last().0 as int {
                assert(es[es.len() - 1].0 as int == x);
            } else {
                let k = choose|k: int| 0 <= k < dl.len() && #[trigger] dl[k].0 as int == x;
                assert(es[k].0 as int == x);
            }
        }
        assert forall|x: int|
            (exists|k: int| 0 <= k < es.len() && #[trigger] es[k].0 as int == x) implies #[trigger] map_of(
            es,
        ).dom().contains(x) by {
            let k = choose|k: int| 0 <= k < es.len() && #[trigger] es[k].0 as int == x;
            if k < es.len() - 1 {
                assert(dl[k].0 as int == x);
            }
        }
        assert forall|k: int| 0 <= k < es.len() implies map_of(es)[#[trigger] es[k].0 as int]
            == es[k].1 by {
            if k < es.len() - 1 {
                assert(dl[k].0 as int == es[k].0 as int && dl[k].1 == es[k].1);
                assert(es[k].0 != es.last().0);
            }
        }
    }
}

/// With distinct ids, the denoted mapping holds exactly as many items as
/// there are entries.
pub proof fn lemma_map_of_len(es: Seq<(u64, Seq<char>)>)
    requires
        distinct_ids(es),
    ensures
        map_of(es).dom().finite(),
        map_of(es).dom().len() == es.len(),
    decreases es.len(),
{
    if es.len() > 0 {
        let dl = es.drop_last();
        assert(distinct_ids(dl)) by {
            assert(forall|i: int| 0 <= i < dl.len() ==> dl[i] == es[i]);
        }
        lemma_map_of_len(dl);
        lemma_map_of_props(dl);
        assert(!map_of(dl).dom().contains(es.last().0 as int)) by {
            if map_of(dl).dom().contains(es.last().0 as int) {
                let k = choose|k: int|
                    0 <= k < dl.len() && #[trigger] dl[k].0 as int == es.last().0 as int;
                assert(es[k].0 == es[es.len() - 1].0);
                assert(false);
            }
        }
        vstd::set::axiom_set_insert_len(map_of(dl).dom(), es.last().0 as int);
        vstd::set::axiom_set_insert_finite(map_of(dl).dom(), es.last().0 as int);
        assert(map_of(es).dom() =~= map_of(dl).dom().insert(es.last().0 as int));
    }
}

/// Removing the entry at one position removes exactly its id from the
/// denoted mapping.
pub proof fn lemma_map_of_remove(es: Seq<(u64, Seq<char>)>, k: int)
    requires
        distinct_ids(es),
        0 <= k < es.len(),
    ensures
        map_of(es.remove(k)) == map_of(es).remove(es[k].0 as int),
{
    let es2 = es.remove(k);
    assert(distinct_ids(es2)) by {
        assert forall|a: int, b: int|
            #![trigger es2[a], es2[b]]
            0 <= a < b < es2.len() implies es2[a].0 != es2[b].0 by {
            let pa = if a < k {
                a
            } else {
                a + 1
            };
            let pb = if b < k {
                b
            } else {
                b + 1
            };
            assert(es2[a] == es[pa] && es2[b] == es[pb]);
        }
    }
    lemma_map_of_props(es);
    lemma_map_of_props(es2);
    let target = es[k].0 as int;
    assert forall|x: int| #[trigger] map_of(es2).dom().contains(x) implies map_of(es).remove(
        target,
    ).dom().contains(x) by {
        let a = choose|a: int| 0 <= a < es2.len() && #[trigger] es2[a].0 as int == x;
        let pa = if a < k {
            a
        } else {
            a + 1
        };
        assert(es2[a] == es[pa]);
        assert(es[pa].0 as int == x);
        if pa < k {
            assert(es[pa].0 != es[k].0);
        } else {
            assert(es[k].0 != es[pa].0);
        }
    }
    assert forall|x: int| map_of(es).remove(target).dom().contains(x) implies #[trigger] map_of(
        es2,
    ).dom().contains(x) by {
        let a = choose|a: int| 0 <= a < es.len() && #[trigger] es[a].0 as int == x;
        assert(a != k);
        let b = if a < k {
            a
        } else {
            a - 1
        };
        assert(es2[b] == es[a]);
        assert(es2[b].0 as int == x);
    }
    assert forall|x: int|
        map_of(es2).dom().contains(x) implies #[trigger] map_of(es2)[x] == map_of(es).remove(
        target,
    )[x] by {
        let a = choose|a: int| 0 <= a < es2.len() && #[trigger] es2[a].0 as int == x;
        let pa = if a < k {
            a
        } else {
            a + 1
        };
        assert(es2[a] == es[pa]);
        assert(map_of(es2)[es2[a].0 as int] == es2[a].1);
        assert(map_of(es)[es[pa].0 as int] == es[pa].1);
    }
    assert(map_of(es2) =~= map_of(es).remove(target));
}

} // verus!
