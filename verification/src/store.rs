//! An in-memory, append-only object store. Ids are positions: the first
//! object of a kind written gets id 0, the next id 1. There is one store
//! for a repository; whoever writes is handed it.

use vstd::prelude::*;
use crate::repo_view::same_ids;
use crate::objects::{
    copy_bytes, copy_ids, entry_models, Commit, CommitData, CommitId, CommitModel, Conflict, ConflictId,
    ConflictModel, FileId, StoreHandle, TreeEntry, TreeEntryModel, TreeId,
};

verus! {

/// Mathematical value of a [`Store`]: the objects of each kind, by id.
pub ghost struct StoreModel {
    pub handle: StoreHandle,
    pub commits: Seq<CommitModel>,
    pub trees: Seq<Seq<TreeEntryModel>>,
    pub files: Seq<Seq<u8>>,
    pub conflicts: Seq<ConflictModel>,
}

impl StoreModel {
    /// Every commit sits at the position that its id names.
    pub open spec fn wf(self) -> bool {
        forall|i: int| 0 <= i < self.commits.len() ==> (#[trigger] self.commits[i]).id == i
    }

    pub open spec fn has_commit(self, id: CommitId) -> bool {
        (id as int) < self.commits.len()
    }

    /// The store holds `commit`: under its id, and equal in every field.
    pub open spec fn holds(self, commit: CommitModel) -> bool {
        self.has_commit(commit.id) && self.commits[commit.id as int] == commit
    }

    /// A commit is empty when it has one parent, the store holds that
    /// parent, and both have the same tree.
    pub open spec fn is_empty_commit(self, commit: CommitModel) -> bool {
        &&& commit.data.parents.len() == 1
        &&& self.has_commit(commit.data.parents[0])
        &&& self.commits[commit.data.parents[0] as int].data.tree == commit.data.tree
    }
}

pub struct Store {
    handle: StoreHandle,
    commits: Vec<Commit>,
    trees: Vec<Vec<TreeEntry>>,
    files: Vec<Vec<u8>>,
    conflicts: Vec<Conflict>,
}

impl View for Store {
    type V = StoreModel;

    closed spec fn view(&self) -> StoreModel {
        StoreModel {
            handle: self.handle,
            commits: Seq::new(self.commits@.len(), |i: int| self.commits@[i]@),
            trees: Seq::new(
                self.trees@.len(),
                |i: int| entry_models(self.trees@[i]@),
            ),
            files: Seq::new(self.files@.len(), |i: int| self.files@[i]@),
            conflicts: Seq::new(self.conflicts@.len(), |i: int| self.conflicts@[i]@),
        }
    }
}

/// Copies the entries of a tree.
pub fn copy_entries(entries: &Vec<TreeEntry>) -> (out: Vec<TreeEntry>)
    ensures
        out@.len() == entries@.len(),
        forall|j: int| 0 <= j < out@.len() ==> (#[trigger] out@[j])@ == entries@[j]@,
{
    let mut out: Vec<TreeEntry> = Vec::new();
    let mut i: usize = 0;
    while i < entries.len()
        invariant
            i <= entries.len(),
            out@.len() == i,
            forall|j: int| 0 <= j < i ==> (#[trigger] out@[j])@ == entries@[j]@,
        decreases entries.len() - i,
    {
        out.push(TreeEntry { path: copy_bytes(&entries[i].path), value: entries[i].value });
        i += 1;
    }
    out
}

impl Store {
    /// A store under the name `handle` that holds nothing.
    pub fn new(handle: StoreHandle) -> (out: Store)
        ensures
            out@.handle == handle,
            out@.commits.len() == 0,
            out@.trees.len() == 0,
            out@.files.len() == 0,
            out@.conflicts.len() == 0,
            out@.wf(),
    {
        Store {
            handle,
            commits: Vec::new(),
            trees: Vec::new(),
            files: Vec::new(),
            conflicts: Vec::new(),
        }
    }

    /// The name of this store.
    pub fn handle(&self) -> (handle: StoreHandle)
        ensures
            handle == self@.handle,
    {
        self.handle
    }

    /// Whether a commit is stored under `id`.
    pub fn has_commit(&self, id: CommitId) -> (found: bool)
        ensures
            found == self@.has_commit(id),
    {
        id < self.commits.len() as u64
    }

    /// Stores a new commit and returns it with the id it got: the number of
    /// commits stored before it.
    pub fn write_commit(&mut self, data: CommitData) -> (commit: Commit)
        ensures
            commit@ == (CommitModel { id: old(self)@.commits.len() as CommitId, data: data@ }),
            commit@.id == old(self)@.commits.len(),
            final(self)@ == (StoreModel {
                commits: old(self)@.commits.push(commit@),
                ..old(self)@
            }),
            old(self)@.wf() ==> final(self)@.wf(),
    {
        let id: CommitId = self.commits.len() as u64;
        let stored = Commit::new(id, data);
        let commit = stored.copy();
        self.commits.push(stored);
        proof {
            assert(self@.commits =~= old(self)@.commits.push(commit@));
            assert(self@.trees =~= old(self)@.trees);
            assert(self@.files =~= old(self)@.files);
            assert(self@.conflicts =~= old(self)@.conflicts);
        }
        commit
    }

    /// The commit stored under `id`, if there is one.
    pub fn get_commit(&self, id: CommitId) -> (found: Option<Commit>)
        ensures
            found is Some <==> self@.has_commit(id),
            found is Some ==> found->0@ == self@.commits[id as int],
    {
        if id < self.commits.len() as u64 {
            Some(self.commits[id as usize].copy())
        } else {
            None
        }
    }

    /// Whether `commit` is a commit of this store: stored under its id,
    /// and equal in every field.
    pub fn holds(&self, commit: &Commit) -> (held: bool)
        ensures
            held == self@.holds(commit@),
    {
        let id = commit.id();
        if id < self.commits.len() as u64 {
            let stored = &self.commits[id as usize];
            stored.id() == id && stored.tree_id() == commit.tree_id() && same_ids(
                stored.parents(),
                commit.parents(),
            ) && same_ids(stored.predecessors(), commit.predecessors()) && stored.description().eq(
                commit.description(),
            ) && stored.timestamp() == commit.timestamp() && stored.author().eq(commit.author())
                && stored.committer().eq(commit.committer()) && stored.is_open()
                == commit.is_open() && stored.is_pruned() == commit.is_pruned()
        } else {
            false
        }
    }

    /// Whether `commit` changes nothing relative to its parent.
    pub fn is_empty(&self, commit: &Commit) -> (empty: bool)
        ensures
            empty == self@.is_empty_commit(commit@),
    {
        let parents = commit.parents();
        if parents.len() != 1 {
            return false;
        }
        let parent: CommitId = parents[0];
        if parent < self.commits.len() as u64 {
            self.commits[parent as usize].tree_id() == commit.tree_id()
        } else {
            false
        }
    }

    /// Stores a new tree and returns its id.
    pub fn write_tree(&mut self, entries: Vec<TreeEntry>) -> (id: TreeId)
        ensures
            id == old(self)@.trees.len(),
            final(self)@ == (StoreModel {
                trees: old(self)@.trees.push(entry_models(entries@)),
                ..old(self)@
            }),
    {
        let id: TreeId = self.trees.len() as u64;
        self.trees.push(entries);
        proof {
            assert(self@.commits =~= old(self)@.commits);
            assert(self@.trees =~= old(self)@.trees.push(entry_models(entries@)));
            assert(self@.files =~= old(self)@.files);
            assert(self@.conflicts =~= old(self)@.conflicts);
        }
        id
    }

    /// The entries of the tree stored under `id`, if there is one.
    pub fn get_tree(&self, id: TreeId) -> (found: Option<Vec<TreeEntry>>)
        ensures
            found is Some <==> (id as int) < self@.trees.len(),
            found is Some ==> entry_models(found->0@) == self@.trees[id as int],
    {
        if id < self.trees.len() as u64 {
            let out = copy_entries(&self.trees[id as usize]);
            proof {
                assert(entry_models(out@) =~= self@.trees[id as int]);
            }
            Some(out)
        } else {
            None
        }
    }

    /// Stores a new file and returns its id.
    pub fn write_file(&mut self, content: Vec<u8>) -> (id: FileId)
        ensures
            id == old(self)@.files.len(),
            final(self)@ == (StoreModel {
                files: old(self)@.files.push(content@),
                ..old(self)@
            }),
    {
        let id: FileId = self.files.len() as u64;
        self.files.push(content);
        proof {
            assert(self@.commits =~= old(self)@.commits);
            assert(self@.trees =~= old(self)@.trees);
            assert(self@.files =~= old(self)@.files.push(content@));
            assert(self@.conflicts =~= old(self)@.conflicts);
        }
        id
    }

    /// Stores a new conflict and returns its id.
    pub fn write_conflict(&mut self, conflict: Conflict) -> (id: ConflictId)
        ensures
            id == old(self)@.conflicts.len(),
            final(self)@ == (StoreModel {
                conflicts: old(self)@.conflicts.push(conflict@),
                ..old(self)@
            }),
    {
        let id: ConflictId = self.conflicts.len() as u64;
        self.conflicts.push(conflict);
        proof {
            assert(self@.commits =~= old(self)@.commits);
            assert(self@.trees =~= old(self)@.trees);
            assert(self@.files =~= old(self)@.files);
            assert(self@.conflicts =~= old(self)@.conflicts.push(conflict@));
        }
        id
    }

    /// The conflict stored under `id`, if there is one.
    pub fn read_conflict(&self, id: ConflictId) -> (found: Option<Conflict>)
        ensures
            found is Some <==> (id as int) < self@.conflicts.len(),
            found is Some ==> found->0@ == self@.conflicts[id as int],
    {
        if id < self.conflicts.len() as u64 {
            let c = &self.conflicts[id as usize];
            Some(Conflict { removes: copy_ids(&c.removes), adds: copy_ids(&c.adds) })
        } else {
            None
        }
    }

    /// The content of the file stored under `id`, if there is one.
    pub fn read_file(&self, id: FileId) -> (found: Option<&Vec<u8>>)
        ensures
            found is Some <==> (id as int) < self@.files.len(),
            found is Some ==> found->0@ == self@.files[id as int],
    {
        if id < self.files.len() as u64 {
            Some(&self.files[id as usize])
        } else {
            None
        }
    }
}

} // verus!
