//! The rules of a checkout: when it is refused, what becomes of the tree,
//! which commit is left behind pruned and which commit is checked out.

use vstd::prelude::*;
use crate::commit_builder::{open_commit_data, rewrite_data};
use crate::conflicts::{materialize_conflict, materialized};
use crate::evolution::is_obsolete;
use crate::objects::{
    copy_bytes, entry_models, CommitDataModel, CommitId, CommitModel, ConflictId, FileId,
    Timestamp, TreeEntry, TreeEntryModel, TreeId, TreeValue,
};
use crate::store::{Store, StoreModel};

verus! {

/// Why a checkout was refused.
#[derive(Clone, Copy, Debug, PartialEq, Eq, Structural)]
pub enum CheckoutError {
    /// The store holds no commit under the id that is checked out.
    CurrentCheckoutMissing(CommitId),
    /// The commit that is checked out is closed.
    CurrentCheckoutClosed(CommitId),
    /// The target is not a commit of the store: nothing is stored under
    /// its id, or what is stored there differs from it.
    TargetMissing(CommitId),
    /// The store holds no tree under the id that the target names.
    TreeMissing(TreeId),
    /// The target's tree names a conflict that the store does not hold.
    ConflictMissing(ConflictId),
}

pub open spec fn is_conflict(entry: TreeEntryModel) -> bool {
    entry.value is Conflict
}

pub open spec fn conflict_of(entry: TreeEntryModel) -> ConflictId {
    match entry.value {
        TreeValue::Conflict(c) => c,
        _ => 0,
    }
}

/// How many of the first `n` entries hold a conflict.
pub open spec fn conflicts_before(entries: Seq<TreeEntryModel>, n: int) -> nat
    decreases n,
{
    if n <= 0 {
        0
    } else {
        conflicts_before(entries, n - 1) + if is_conflict(entries[n - 1]) {
            1nat
        } else {
            0nat
        }
    }
}

/// The first conflict, from entry `from` on, that is not among the `known`
/// conflicts of the store.
pub open spec fn first_missing_conflict(entries: Seq<TreeEntryModel>, known: nat, from: int)
    -> Option<ConflictId>
    decreases entries.len() - from,
{
    if from < 0 || from >= entries.len() {
        None
    } else if is_conflict(entries[from]) && conflict_of(entries[from]) >= known {
        Some(conflict_of(entries[from]))
    } else {
        first_missing_conflict(entries, known, from + 1)
    }
}

/// Why the tree `tree` cannot be materialized in `store`, if it cannot.
pub open spec fn tree_error(store: StoreModel, tree: TreeId) -> Option<CheckoutError> {
    if tree >= store.trees.len() {
        Some(CheckoutError::TreeMissing(tree))
    } else {
        match first_missing_conflict(store.trees[tree as int], store.conflicts.len(), 0) {
            Some(c) => Some(CheckoutError::ConflictMissing(c)),
            None => None,
        }
    }
}

/// Why a checkout of `target` is refused while `checkout` is checked out,
/// if it is: the checks in the order in which they are made. The target
/// has to be a commit of the store: stored under its id, and equal to what
/// is stored there in every field.
pub open spec fn checkout_error(store: StoreModel, checkout: CommitId, target: CommitModel)
    -> Option<CheckoutError> {
    if !store.has_commit(checkout) {
        Some(CheckoutError::CurrentCheckoutMissing(checkout))
    } else if !store.commits[checkout as int].data.is_open {
        Some(CheckoutError::CurrentCheckoutClosed(checkout))
    } else if !store.holds(target) {
        Some(CheckoutError::TargetMissing(target.id))
    } else {
        tree_error(store, target.data.tree)
    }
}

/// Entry `j` as it stands in the materialized tree: a conflict gives way to
/// an ordinary, non-executable file; the files get consecutive ids from
/// `first_file` on, in the order of the entries.
pub open spec fn materialized_entry(entries: Seq<TreeEntryModel>, j: int, first_file: nat)
    -> TreeEntryModel {
    if is_conflict(entries[j]) {
        TreeEntryModel {
            path: entries[j].path,
            value: TreeValue::Normal {
                id: (first_file + conflicts_before(entries, j)) as FileId,
                executable: false,
            },
        }
    } else {
        entries[j]
    }
}

pub open spec fn materialized_entries(entries: Seq<TreeEntryModel>, first_file: nat) -> Seq<
    TreeEntryModel,
> {
    Seq::new(entries.len(), |j: int| materialized_entry(entries, j, first_file))
}

/// If entry `j` holds a conflict, `files` holds its materialized content
/// under the id that the materialized tree names.
pub open spec fn file_written_for(
    before: StoreModel,
    entries: Seq<TreeEntryModel>,
    files: Seq<Seq<u8>>,
    j: int,
) -> bool {
    is_conflict(entries[j]) ==> {
        let f = (before.files.len() + conflicts_before(entries, j)) as int;
        &&& f < files.len()
        &&& files[f] == materialized(before.files, before.conflicts[conflict_of(entries[j]) as int])
    }
}

/// `files` is what the store holds after the conflicts of `entries` were
/// materialized: the files of before, then one file for each conflict.
pub open spec fn materializes(
    before: StoreModel,
    entries: Seq<TreeEntryModel>,
    files: Seq<Seq<u8>>,
) -> bool {
    &&& files.len() == before.files.len() + conflicts_before(entries, entries.len() as int)
    &&& files.take(before.files.len() as int) == before.files
    &&& forall|j: int|
        0 <= j < entries.len() ==> #[trigger] file_written_for(before, entries, files, j)
}

/// `after` is `before` with the tree `tree` materialized as `new_tree`:
/// without conflicts nothing is written and the tree keeps its id; else
/// the files and one new tree are added.
pub open spec fn materialized_into(
    before: StoreModel,
    after: StoreModel,
    tree: TreeId,
    new_tree: TreeId,
) -> bool {
    let entries = before.trees[tree as int];
    &&& after.handle == before.handle
    &&& after.commits == before.commits
    &&& after.conflicts == before.conflicts
    &&& materializes(before, entries, after.files)
    &&& if conflicts_before(entries, entries.len() as int) == 0 {
        new_tree == tree && after.trees == before.trees
    } else {
        new_tree == before.trees.len() && after.trees == before.trees.push(
            materialized_entries(entries, before.files.len()),
        )
    }
}

/// If entry `j` holds a conflict, the store knows it and `contents` holds
/// its materialized content at the conflict's rank.
pub open spec fn content_ready(
    store: StoreModel,
    entries: Seq<TreeEntryModel>,
    contents: Seq<Vec<u8>>,
    j: int,
) -> bool {
    is_conflict(entries[j]) ==> {
        let k = conflicts_before(entries, j) as int;
        &&& conflict_of(entries[j]) < store.conflicts.len()
        &&& k < contents.len()
        &&& contents[k]@ == materialized(store.files, store.conflicts[conflict_of(entries[j]) as int])
    }
}

/// Materializes every conflict of `entries`, in order, without writing
/// anything; stops at the first conflict that the store lacks.
fn prepare_contents(store: &Store, entries: &Vec<TreeEntry>) -> (result: Result<
    Vec<Vec<u8>>,
    ConflictId,
>)
    ensures
        match result {
            Err(c) => first_missing_conflict(
                entry_models(entries@),
                store@.conflicts.len(),
                0,
            ) == Some(c),
            Ok(contents) => {
                &&& first_missing_conflict(entry_models(entries@), store@.conflicts.len(), 0)
                    is None
                &&& contents@.len() == conflicts_before(
                    entry_models(entries@),
                    entries@.len() as int,
                )
                &&& forall|j: int|
                    0 <= j < entries@.len() ==> #[trigger] content_ready(
                        store@,
                        entry_models(entries@),
                        contents@,
                        j,
                    )
            },
        },
{
    let ghost em = entry_models(entries@);
    let ghost known = store@.conflicts.len();
    let mut contents: Vec<Vec<u8>> = Vec::new();
    let mut i: usize = 0;
    while i < entries.len()
        invariant
            i <= entries.len(),
            em == entry_models(entries@),
            known == store@.conflicts.len(),
            first_missing_conflict(em, known, 0) == first_missing_conflict(em, known, i as int),
            contents@.len() == conflicts_before(em, i as int),
            forall|j: int| 0 <= j < i ==> #[trigger] content_ready(store@, em, contents@, j),
        decreases entries.len() - i,
    {
        assert(em[i as int] == entries@[i as int]@);
        match entries[i].value {
            TreeValue::Conflict(c) => {
                match store.read_conflict(c) {
                    None => {
                        return Err(c);
                    },
                    Some(conflict) => {
                        let content = materialize_conflict(store, &conflict);
                        let ghost before = contents@;
                        contents.push(content);
                        proof {
                            assert forall|j: int| 0 <= j < i + 1 implies #[trigger] content_ready(
                                store@,
                                em,
                                contents@,
                                j,
                            ) by {
                                if j < i {
                                    assert(content_ready(store@, em, before, j));
                                }
                            }
                        }
                    },
                }
            },
            TreeValue::Normal { .. } => {},
        }
        i += 1;
    }
    Ok(contents)
}

/// Writes the prepared contents as files and builds the materialized
/// entries.
fn write_contents(store: &mut Store, entries: &Vec<TreeEntry>, contents: &Vec<Vec<u8>>) -> (out:
    Vec<TreeEntry>)
    requires
        contents@.len() == conflicts_before(entry_models(entries@), entries@.len() as int),
        forall|j: int|
            0 <= j < entries@.len() ==> #[trigger] content_ready(
                old(store)@,
                entry_models(entries@),
                contents@,
                j,
            ),
    ensures
        final(store)@.handle == old(store)@.handle,
        final(store)@.commits == old(store)@.commits,
        final(store)@.conflicts == old(store)@.conflicts,
        final(store)@.trees == old(store)@.trees,
        materializes(old(store)@, entry_models(entries@), final(store)@.files),
        entry_models(out@) == materialized_entries(
            entry_models(entries@),
            old(store)@.files.len(),
        ),
{
    let ghost em = entry_models(entries@);
    let ghost s0 = store@;
    let mut out: Vec<TreeEntry> = Vec::new();
    let mut k: usize = 0;
    let mut i: usize = 0;
    assert(store@.files.take(s0.files.len() as int) =~= s0.files);
    while i < entries.len()
        invariant
            i <= entries.len(),
            em == entry_models(entries@),
            contents@.len() == conflicts_before(em, entries@.len() as int),
            forall|j: int| 0 <= j < entries@.len() ==> #[trigger] content_ready(s0, em, contents@, j),
            k == conflicts_before(em, i as int),
            store@.handle == s0.handle,
            store@.commits == s0.commits,
            store@.conflicts == s0.conflicts,
            store@.trees == s0.trees,
            store@.files.len() == s0.files.len() + k,
            store@.files.take(s0.files.len() as int) == s0.files,
            forall|j: int| 0 <= j < i ==> #[trigger] file_written_for(s0, em, store@.files, j),
            out@.len() == i,
            forall|j: int|
                0 <= j < i ==> (#[trigger] out@[j])@ == materialized_entry(
                    em,
                    j,
                    s0.files.len(),
                ),
        decreases entries.len() - i,
    {
        assert(em[i as int] == entries@[i as int]@);
        let ghost files_before = store@.files;
        match entries[i].value {
            TreeValue::Conflict(c) => {
                proof {
                    assert(content_ready(s0, em, contents@, i as int));
                }
                assert(k < contents.len());
                let file_id = store.write_file(copy_bytes(&contents[k]));
                out.push(
                    TreeEntry {
                        path: copy_bytes(&entries[i].path),
                        value: TreeValue::Normal { id: file_id, executable: false },
                    },
                );
                proof {
                    assert(store@.files.take(s0.files.len() as int) =~= s0.files);
                    assert forall|j: int| 0 <= j < i + 1 implies #[trigger] file_written_for(
                        s0,
                        em,
                        store@.files,
                        j,
                    ) by {
                        if j < i {
                            assert(file_written_for(s0, em, files_before, j));
                        }
                    }
                }
                k += 1;
            },
            TreeValue::Normal { id, executable } => {
                out.push(
                    TreeEntry {
                        path: copy_bytes(&entries[i].path),
                        value: TreeValue::Normal { id, executable },
                    },
                );
            },
        }
        i += 1;
    }
    proof {
        assert(entry_models(out@) =~= materialized_entries(em, s0.files.len()));
    }
    out
}

/// Resolves every conflict of the tree `tree`: the content that stands
/// for each conflict is written as a file, and a tree that names those
/// files in place of the conflicts is written. Nothing is written where
/// the tree or one of its conflicts is not in the store, or where the tree
/// holds no conflict: it then keeps its id.
pub fn materialize_tree(store: &mut Store, tree: TreeId) -> (result: Result<TreeId, CheckoutError>)
    ensures
        match result {
            Err(e) => tree_error(old(store)@, tree) == Some(e) && final(store)@ == old(store)@,
            Ok(new_tree) => tree_error(old(store)@, tree) is None && materialized_into(
                old(store)@,
                final(store)@,
                tree,
                new_tree,
            ),
        },
{
    let entries = match store.get_tree(tree) {
        Some(entries) => entries,
        None => {
            return Err(CheckoutError::TreeMissing(tree));
        },
    };
    let contents = match prepare_contents(store, &entries) {
        Ok(contents) => contents,
        Err(c) => {
            return Err(CheckoutError::ConflictMissing(c));
        },
    };
    let new_entries = write_contents(store, &entries, &contents);
    if contents.len() == 0 {
        proof {
            assert(store@.files =~= old(store)@.files) by {
                assert(store@.files.take(old(store)@.files.len() as int) =~= store@.files);
            }
            assert(store@ == old(store)@);
        }
        Ok(tree)
    } else {
        let new_tree = store.write_tree(new_entries);
        Ok(new_tree)
    }
}

/// The commit that takes the place of `current` when an empty checkout is
/// left behind: its rewrite, pruned. There is one when `current` is empty,
/// not pruned and not obsolete.
pub open spec fn pruned_successor(
    store: StoreModel,
    heads: Set<CommitId>,
    user: Seq<char>,
    now: Timestamp,
    current: CommitModel,
) -> Option<CommitModel> {
    if store.is_empty_commit(current) && !current.data.is_pruned && !is_obsolete(
        store,
        heads,
        current.id,
    ) {
        Some(
            CommitModel {
                id: store.commits.len() as CommitId,
                data: CommitDataModel { is_pruned: true, ..rewrite_data(user, now, current) },
            },
        )
    } else {
        None
    }
}

/// Whether a checkout of `target` with the materialized tree `tree` writes
/// a commit: always for a closed target, and for an open one when the
/// tree changed.
pub open spec fn selection_creates(target: CommitModel, tree: TreeId) -> bool {
    !target.data.is_open || tree != target.data.tree
}

/// The commit that is checked out for `target` with the materialized tree
/// `tree`, where `next_id` is the id that a new commit gets: a new open
/// commit on top of a closed target; a rewrite of an open target whose
/// tree changed; else the target itself.
pub open spec fn selected_commit(
    next_id: CommitId,
    user: Seq<char>,
    now: Timestamp,
    target: CommitModel,
    tree: TreeId,
) -> CommitModel {
    if !target.data.is_open {
        CommitModel { id: next_id, data: open_commit_data(user, now, target.id, tree) }
    } else if tree != target.data.tree {
        CommitModel {
            id: next_id,
            data: CommitDataModel { tree, ..rewrite_data(user, now, target) },
        }
    } else {
        target
    }
}

} // verus!
