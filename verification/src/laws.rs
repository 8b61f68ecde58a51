//! Laws of the store over whole sequences of operations, proved from the
//! same transitions that the store methods' contracts state. Handlers run
//! under one exclusive lock, so any concurrent workload reaches the store
//! as some such sequence; these laws hold of every interleaving.

use vstd::prelude::*;
use crate::model::StoreState;
use crate::model::empty_state;
use crate::model::spec_insert;
use crate::model::spec_remove;
use crate::model::state_inv;

verus! {

/// One store operation, with what it carries.
pub enum StoreOp {
    Insert(Seq<char>),
    Remove(int),
}

/// The state after running the operations in order from a starting state.
pub open spec fn run(s: StoreState, ops: Seq<StoreOp>) -> StoreState
    decreases ops.len(),
{
    if ops.len() == 0 {
        s
    } else {
        let prev = run(s, ops.drop_last());
        match ops.last() {
            StoreOp::Insert(t) => spec_insert(prev, t).0,
            StoreOp::Remove(id) => spec_remove(prev, id).0,
        }
    }
}

/// The ids issued to the inserts among the operations, in order.
pub open spec fn issued(s: StoreState, ops: Seq<StoreOp>) -> Seq<int>
    decreases ops.len(),
{
    if ops.len() == 0 {
        Seq::empty()
    } else {
        let pre = issued(s, ops.drop_last());
        match ops.last() {
            StoreOp::Insert(_) => pre.push(run(s, ops.drop_last()).next),
            StoreOp::Remove(_) => pre,
        }
    }
}

/// How many of the operations are inserts.
pub open spec fn count_inserts(ops: Seq<StoreOp>) -> nat
    decreases ops.len(),
{
    if ops.len() == 0 {
        0
    } else {
        count_inserts(ops.drop_last()) + (match ops.last() {
            StoreOp::Insert(_) => 1nat,
            StoreOp::Remove(_) => 0nat,
        })
    }
}

/// How many removals took effect: those whose id was present at their turn.
pub open spec fn count_effective_removes(s: StoreState, ops: Seq<StoreOp>) -> nat
    decreases ops.len(),
{
    if ops.len() == 0 {
        0
    } else {
        let prev = run(s, ops.drop_last());
        count_effective_removes(s, ops.drop_last()) + (match ops.last() {
            StoreOp::Remove(id) => if prev.items.dom().contains(id) {
                1nat
            } else {
                0nat
            },
            StoreOp::Insert(_) => 0nat,
        })
    }
}

/// Running any operations preserves the model's invariant: the counter
/// stays above every stored id.
pub proof fn lemma_run_inv(s: StoreState, ops: Seq<StoreOp>)
    requires
        state_inv(s),
    ensures
        state_inv(run(s, ops)),
    decreases ops.len(),
{
    if ops.len() > 0 {
        lemma_run_inv(s, ops.drop_last());
        let prev = run(s, ops.drop_last());
        match ops.last() {
            StoreOp::Insert(t) => {
                assert(run(s, ops).items.dom() =~= prev.items.dom().insert(prev.next));
            },
            StoreOp::Remove(id) => {
                if prev.items.dom().contains(id) {
                    assert(run(s, ops).items.dom() =~= prev.items.dom().remove(id));
                }
            },
        }
    }
}

/// The issued ids written out: each insert receives exactly the counter at
/// its turn, so from a starting counter `n` the inserts receive
/// `n, n + 1, n + 2, ...` in order, and removals never move the counter.
pub proof fn lemma_issued_formula(s: StoreState, ops: Seq<StoreOp>)
    ensures
        run(s, ops).next == s.next + count_inserts(ops),
        issued(s, ops) =~= Seq::new(count_inserts(ops), |k: int| s.next + k),
    decreases ops.len(),
{
    if ops.len() > 0 {
        lemma_issued_formula(s, ops.drop_last());
    }
}

/// For every sequence of store operations, the ids issued to the inserts
/// are strictly increasing: an id handed out once is never handed out
/// again, whatever removals come in between.
pub proof fn lemma_issued_strictly_increasing(s: StoreState, ops: Seq<StoreOp>, a: int, b: int)
    requires
        0 <= a < b < issued(s, ops).len(),
    ensures
        issued(s, ops)[a] < issued(s, ops)[b],
{
    lemma_issued_formula(s, ops);
}

/// Under any serialization of concurrent inserts against a fresh store,
/// the returned ids are exactly 0 through K - 1 for K inserts: pairwise
/// distinct, without duplicates or gaps, whatever the interleaving.
pub proof fn lemma_fresh_ids_contiguous(ops: Seq<StoreOp>)
    ensures
        issued(empty_state(), ops) =~= Seq::new(count_inserts(ops), |k: int| k),
{
    lemma_issued_formula(empty_state(), ops);
}

/// A removal yields the stored title exactly once: removing a present id
/// returns its title, and removing the same id again reports absence and
/// changes nothing.
pub proof fn lemma_remove_twice(s: StoreState, id: int)
    requires
        s.items.dom().contains(id),
    ensures
        spec_remove(s, id).1 == Option::Some(s.items[id]),
        spec_remove(spec_remove(s, id).0, id).1 is None,
        spec_remove(spec_remove(s, id).0, id).0 == spec_remove(s, id).0,
{
}

/// After any operations on a store, the number of stored items is the
/// starting count plus the inserts minus the removals that took effect.
/// From the empty store: exactly N - M entries after N inserts and M
/// effective removals.
pub proof fn lemma_list_count(s: StoreState, ops: Seq<StoreOp>)
    requires
        state_inv(s),
    ensures
        run(s, ops).items.dom().finite(),
        run(s, ops).items.dom().len() == s.items.dom().len() + count_inserts(ops)
            - count_effective_removes(s, ops),
    decreases ops.len(),
{
    if ops.len() > 0 {
        lemma_list_count(s, ops.drop_last());
        lemma_run_inv(s, ops.drop_last());
        let prev = run(s, ops.drop_last());
        match ops.last() {
            StoreOp::Insert(t) => {
                assert(!prev.items.dom().contains(prev.next));
                assert(run(s, ops).items.dom() =~= prev.items.dom().insert(prev.next));
                vstd::set::axiom_set_insert_len(prev.items.dom(), prev.next);
                vstd::set::axiom_set_insert_finite(prev.items.dom(), prev.next);
            },
            StoreOp::Remove(id) => {
                if prev.items.dom().contains(id) {
                    assert(run(s, ops).items.dom() =~= prev.items.dom().remove(id));
                    vstd::set::axiom_set_remove_len(prev.items.dom(), id);
                    vstd::set::axiom_set_remove_finite(prev.items.dom(), id);
                }
            },
        }
    }
}

/// Every id the store holds after a run from the empty store was issued by
/// one of the inserts: listing never shows an id that no insert returned.
pub proof fn lemma_listed_ids_issued(ops: Seq<StoreOp>)
    ensures
        forall|id: int|
            #[trigger] run(empty_state(), ops).items.dom().contains(id) ==> issued(
                empty_state(),
                ops,
            ).contains(id),
    decreases ops.len(),
{
    let s0 = empty_state();
    if ops.len() > 0 {
        lemma_listed_ids_issued(ops.drop_last());
        let prev = run(s0, ops.drop_last());
        let pre = issued(s0, ops.drop_last());
        assert forall|id: int| #[trigger] run(s0, ops).items.dom().contains(id) implies issued(
            s0,
            ops,
        ).contains(id) by {
            match ops.last() {
                StoreOp::Insert(t) => {
                    if id == prev.next {
                        assert(issued(s0, ops)[pre.len() as int] == prev.next);
                    } else {
                        assert(prev.items.dom().contains(id));
                        let k = choose|k: int| 0 <= k < pre.len() && pre[k] == id;
                        assert(issued(s0, ops)[k] == id);
                    }
                },
                StoreOp::Remove(rid) => {
                    assert(prev.items.dom().contains(id));
                },
            }
        }
    }
}

} // verus!
