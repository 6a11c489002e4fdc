//! What follows from the contracts of a transaction, stated once and
//! proved.

use vstd::prelude::*;
use crate::checkout::{checkout_error, conflicts_before, pruned_successor};
use crate::evolution::{is_obsolete, rewrites};
use crate::objects::{CommitDataModel, CommitId, CommitModel};
use crate::operation::Operation;
use crate::store::StoreModel;
use crate::transaction::Transaction;

verus! {

/// Isolation: a commit written through one transaction changes nothing
/// for another transaction on the same store. The other's view is its
/// own, it is still open on the store as it is now, and every question
/// of obsolescence has the answer it had, provided that the other's heads
/// do not already hold the id that the new commit got.
pub proof fn lemma_isolation(
    before: Transaction,
    after: Transaction,
    store0: StoreModel,
    store1: StoreModel,
    data: CommitDataModel,
    commit: CommitModel,
    other: Transaction,
    id: CommitId,
)
    requires
        after.wrote(before, store0, store1, data, commit),
        other.is_open_on(store0),
        !other.view_model().heads.contains(commit.id),
    ensures
        after.base() == before.base(),
        other.is_open_on(store1),
        is_obsolete(store1, other.view_model().heads, id) == is_obsolete(
            store0,
            other.view_model().heads,
            id,
        ),
{
    let heads = other.view_model().heads;
    assert forall|x: CommitId| is_obsolete(store1, heads, x) == is_obsolete(store0, heads, x) by {
        if is_obsolete(store1, heads, x) {
            let s = choose|s: CommitId| heads.contains(s) && #[trigger] rewrites(store1, s, x);
            assert(s != commit.id);
            assert(store1.commits[s as int] == store0.commits[s as int]);
            assert(rewrites(store0, s, x));
        }
        if is_obsolete(store0, heads, x) {
            let s = choose|s: CommitId| heads.contains(s) && #[trigger] rewrites(store0, s, x);
            assert(store1.commits[s as int] == store0.commits[s as int]);
            assert(rewrites(store1, s, x));
        }
    }
}

/// A view whose heads are all commits of the store never lists a commit
/// before it is written: the id that the next commit gets is not among
/// its heads.
pub proof fn lemma_stored_heads_exclude_the_next_commit(
    other: Transaction,
    store: StoreModel,
    next: CommitId,
)
    requires
        forall|h: CommitId| #[trigger]
            other.view_model().heads.contains(h) ==> store.has_commit(h),
        next as int == store.commits.len(),
    ensures
        !other.view_model().heads.contains(next),
{
    if other.view_model().heads.contains(next) {
        assert(store.has_commit(next));
    }
}

/// After any change of the view the index remembers nothing, so the next
/// question is answered from the store and the view as they stand: a
/// transaction that is not closed and remembers nothing is open on every
/// well-formed store of its snapshot.
pub proof fn lemma_forgotten_index_is_never_stale(tx: Transaction, store: StoreModel)
    requires
        !tx.is_closed(),
        !tx.cached(),
        store.wf(),
        store.handle == tx.base().spec_store(),
    ensures
        tx.is_open_on(store),
{
}

/// Leaving an empty checkout prunes it: where the commit that was checked
/// out is empty, not pruned and not obsolete, a successful checkout leaves
/// in the store a rewrite of it that is pruned, that rewrite is a head,
/// and the commit left behind is obsolete from then on.
pub proof fn lemma_empty_checkout_is_pruned(
    before: Transaction,
    after: Transaction,
    store0: StoreModel,
    store1: StoreModel,
    user: Seq<char>,
    target: CommitModel,
    result: CommitModel,
)
    requires
        before.is_open_on(store0),
        checkout_error(store0, before.view_model().checkout, target) is None,
        after.checked_out(before, store0, store1, user, target, result),
        store0.is_empty_commit(store0.commits[before.view_model().checkout as int]),
        !store0.commits[before.view_model().checkout as int].data.is_pruned,
        !is_obsolete(store0, before.view_model().heads, before.view_model().checkout),
    ensures
        ({
            let current = store0.commits[before.view_model().checkout as int];
            let n = store0.commits.len() as int;
            let rewrite = store1.commits[n];
            &&& n < store1.commits.len()
            &&& rewrite.id == n
            &&& rewrite.data.is_pruned
            &&& rewrite.data.predecessors == seq![current.id]
            &&& rewrite.data.tree == current.data.tree
            &&& rewrite.data.parents == current.data.parents
            &&& after.view_model().heads.contains(rewrite.id)
            &&& is_obsolete(store1, after.view_model().heads, current.id)
        }),
{
    let current = store0.commits[before.view_model().checkout as int];
    assert(current.id == before.view_model().checkout);
    let left = pruned_successor(
        store0,
        before.view_model().heads,
        user,
        before.spec_start_time(),
        current,
    );
    assert(left is Some);
    let n = store0.commits.len() as int;
    let rewrite = store1.commits[n];
    assert(rewrite == left->0);
    assert(store1.wf());
    assert(rewrite.data.predecessors[0] == current.id);
    assert(rewrites(store1, rewrite.id, current.id));
}

/// A checkout of an open commit whose tree holds no conflict gives that
/// very commit back: no commit is written for it, no tree and no file.
pub proof fn lemma_open_without_conflicts_is_kept(
    before: Transaction,
    after: Transaction,
    store0: StoreModel,
    store1: StoreModel,
    user: Seq<char>,
    target: CommitModel,
    result: CommitModel,
)
    requires
        before.is_open_on(store0),
        checkout_error(store0, before.view_model().checkout, target) is None,
        after.checked_out(before, store0, store1, user, target, result),
        target.data.is_open,
        conflicts_before(
            store0.trees[target.data.tree as int],
            store0.trees[target.data.tree as int].len() as int,
        ) == 0,
    ensures
        result == target,
        after.view_model().checkout == target.id,
        store1.trees == store0.trees,
        store1.files == store0.files,
        store1.commits == (match pruned_successor(
            store0,
            before.view_model().heads,
            user,
            before.spec_start_time(),
            store0.commits[before.view_model().checkout as int],
        ) {
            Some(c) => store0.commits.push(c),
            None => store0.commits,
        }),
{
    assert(store1.files.take(store0.files.len() as int) =~= store1.files);
}

/// A checkout of a closed commit always gives a new open commit on top of
/// it: its only parent is the closed commit and it has no predecessor, its
/// id is not the closed commit's, it is the last commit written, a head,
/// and what is checked out.
pub proof fn lemma_closed_target_is_promoted(
    before: Transaction,
    after: Transaction,
    store0: StoreModel,
    store1: StoreModel,
    user: Seq<char>,
    target: CommitModel,
    result: CommitModel,
)
    requires
        before.is_open_on(store0),
        checkout_error(store0, before.view_model().checkout, target) is None,
        after.checked_out(before, store0, store1, user, target, result),
        !target.data.is_open,
    ensures
        result.data.is_open,
        result.data.parents == seq![target.id],
        result.data.predecessors == Seq::<CommitId>::empty(),
        result.id >= store0.commits.len(),
        result.id != target.id,
        store1.commits.last() == result,
        after.view_model().heads.contains(result.id),
        after.view_model().checkout == result.id,
{
}

/// A checkout of an open commit whose tree holds conflicts gives a new
/// successor of it: the same commit but for the tree, which is the new
/// tree with the conflicts materialized, with the target as its only
/// predecessor and under an id of its own.
pub proof fn lemma_open_with_conflicts_is_rewritten(
    before: Transaction,
    after: Transaction,
    store0: StoreModel,
    store1: StoreModel,
    user: Seq<char>,
    target: CommitModel,
    result: CommitModel,
)
    requires
        before.is_open_on(store0),
        checkout_error(store0, before.view_model().checkout, target) is None,
        after.checked_out(before, store0, store1, user, target, result),
        target.data.is_open,
        conflicts_before(
            store0.trees[target.data.tree as int],
            store0.trees[target.data.tree as int].len() as int,
        ) > 0,
    ensures
        result.id != target.id,
        result.data.is_open,
        result.data.predecessors == seq![target.id],
        result.data.parents == target.data.parents,
        result.data.tree as int == store0.trees.len(),
        store1.commits.last() == result,
        after.view_model().heads.contains(result.id),
        after.view_model().checkout == result.id,
{
}

/// Round trip: the view that `Operation::to_view` rebuilds from the
/// record of a committed transaction has the heads and the checkout that
/// the transaction had when `commit` was called.
pub proof fn lemma_round_trip(
    before: Transaction,
    after: Transaction,
    op: Operation,
    replayed: crate::repo_view::ReadonlyView,
)
    requires
        after.committed(before, op),
        replayed@ == op.view_model(),
    ensures
        replayed@.heads == before.view_model().heads,
        replayed@.checkout == before.view_model().checkout,
        after.is_closed(),
{
}

} // verus!
