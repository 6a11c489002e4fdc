//! Immutable values kept in the object store: commits, trees, conflicts.

use vstd::prelude::*;

verus! {

pub type CommitId = u64;

pub type TreeId = u64;

pub type FileId = u64;

pub type ConflictId = u64;

/// Milliseconds since the epoch.
pub type Timestamp = u64;

/// The name of a store. Snapshots and transactions keep the name of the
/// store they belong to, and work on no other.
pub type StoreHandle = u64;

/// Copies a list of ids.
pub fn copy_ids(ids: &Vec<u64>) -> (out: Vec<u64>)
    ensures
        out@ == ids@,
{
    let mut out: Vec<u64> = Vec::new();
    let mut i: usize = 0;
    while i < ids.len()
        invariant
            i <= ids.len(),
            out@ == ids@.take(i as int),
        decreases ids.len() - i,
    {
        out.push(ids[i]);
        i += 1;
        assert(out@ =~= ids@.take(i as int));
    }
    assert(ids@.take(ids.len() as int) =~= ids@);
    out
}

/// Membership after one more element.
pub proof fn lemma_push_contains(s: Seq<CommitId>, v: CommitId, x: CommitId)
    ensures
        s.push(v).contains(x) == (s.contains(x) || x == v),
{
    if s.push(v).contains(x) {
        let j = choose|j: int| 0 <= j < s.push(v).len() && s.push(v)[j] == x;
        if j < s.len() {
            assert(s[j] == x);
        }
    }
    if s.contains(x) {
        let j = choose|j: int| 0 <= j < s.len() && s[j] == x;
        assert(s.push(v)[j] == x);
    }
    assert(s.push(v)[s.len() as int] == v);
}

/// Copies a byte string.
pub fn copy_bytes(bytes: &Vec<u8>) -> (out: Vec<u8>)
    ensures
        out@ == bytes@,
{
    let mut out: Vec<u8> = Vec::new();
    let mut i: usize = 0;
    while i < bytes.len()
        invariant
            i <= bytes.len(),
            out@ == bytes@.take(i as int),
        decreases bytes.len() - i,
    {
        out.push(bytes[i]);
        i += 1;
        assert(out@ =~= bytes@.take(i as int));
    }
    assert(bytes@.take(bytes.len() as int) =~= bytes@);
    out
}

/// What a commit records, before the store has given it an id.
pub struct CommitData {
    pub tree: TreeId,
    pub parents: Vec<CommitId>,
    pub predecessors: Vec<CommitId>,
    pub description: String,
    pub timestamp: Timestamp,
    pub author: String,
    pub committer: String,
    pub is_open: bool,
    pub is_pruned: bool,
}

/// Mathematical value of a [`CommitData`].
pub ghost struct CommitDataModel {
    pub tree: TreeId,
    pub parents: Seq<CommitId>,
    pub predecessors: Seq<CommitId>,
    pub description: Seq<char>,
    pub timestamp: Timestamp,
    pub author: Seq<char>,
    pub committer: Seq<char>,
    pub is_open: bool,
    pub is_pruned: bool,
}

impl View for CommitData {
    type V = CommitDataModel;

    open spec fn view(&self) -> CommitDataModel {
        CommitDataModel {
            tree: self.tree,
            parents: self.parents@,
            predecessors: self.predecessors@,
            description: self.description@,
            timestamp: self.timestamp,
            author: self.author@,
            committer: self.committer@,
            is_open: self.is_open,
            is_pruned: self.is_pruned,
        }
    }
}

impl CommitData {
    pub fn copy(&self) -> (out: CommitData)
        ensures
            out@ == self@,
    {
        CommitData {
            tree: self.tree,
            parents: copy_ids(&self.parents),
            predecessors: copy_ids(&self.predecessors),
            description: self.description.clone(),
            timestamp: self.timestamp,
            author: self.author.clone(),
            committer: self.committer.clone(),
            is_open: self.is_open,
            is_pruned: self.is_pruned,
        }
    }
}

/// Mathematical value of a [`Commit`]: its id and what it records.
pub ghost struct CommitModel {
    pub id: CommitId,
    pub data: CommitDataModel,
}

/// A commit as the store hands it out. Never changed in place: a change is
/// a new commit that names this one among its predecessors.
pub struct Commit {
    id: CommitId,
    data: CommitData,
}

impl View for Commit {
    type V = CommitModel;

    closed spec fn view(&self) -> CommitModel {
        CommitModel { id: self.id, data: self.data@ }
    }
}

impl Commit {
    pub(crate) fn new(id: CommitId, data: CommitData) -> (out: Commit)
        ensures
            out@ == (CommitModel { id, data: data@ }),
    {
        Commit { id, data }
    }

    pub fn id(&self) -> (id: CommitId)
        ensures
            id == self@.id,
    {
        self.id
    }

    pub fn tree_id(&self) -> (id: TreeId)
        ensures
            id == self@.data.tree,
    {
        self.data.tree
    }

    pub fn parents(&self) -> (ids: &Vec<CommitId>)
        ensures
            ids@ == self@.data.parents,
    {
        &self.data.parents
    }

    pub fn predecessors(&self) -> (ids: &Vec<CommitId>)
        ensures
            ids@ == self@.data.predecessors,
    {
        &self.data.predecessors
    }

    pub fn description(&self) -> (text: &String)
        ensures
            text@ == self@.data.description,
    {
        &self.data.description
    }

    pub fn timestamp(&self) -> (time: Timestamp)
        ensures
            time == self@.data.timestamp,
    {
        self.data.timestamp
    }

    pub fn author(&self) -> (name: &String)
        ensures
            name@ == self@.data.author,
    {
        &self.data.author
    }

    pub fn committer(&self) -> (name: &String)
        ensures
            name@ == self@.data.committer,
    {
        &self.data.committer
    }

    pub fn is_open(&self) -> (open: bool)
        ensures
            open == self@.data.is_open,
    {
        self.data.is_open
    }

    pub fn is_pruned(&self) -> (pruned: bool)
        ensures
            pruned == self@.data.is_pruned,
    {
        self.data.is_pruned
    }

    pub fn copy(&self) -> (out: Commit)
        ensures
            out@ == self@,
    {
        Commit { id: self.id, data: self.data.copy() }
    }
}

/// What a tree holds at a path.
#[derive(Clone, Copy, Debug, PartialEq, Eq, Structural)]
pub enum TreeValue {
    Normal { id: FileId, executable: bool },
    Conflict(ConflictId),
}

/// One path of a tree and what it holds.
pub struct TreeEntry {
    pub path: Vec<u8>,
    pub value: TreeValue,
}

/// Mathematical value of a [`TreeEntry`].
pub ghost struct TreeEntryModel {
    pub path: Seq<u8>,
    pub value: TreeValue,
}

impl View for TreeEntry {
    type V = TreeEntryModel;

    open spec fn view(&self) -> TreeEntryModel {
        TreeEntryModel { path: self.path@, value: self.value }
    }
}

/// The mathematical values of a tree's entries, in order.
pub open spec fn entry_models(entries: Seq<TreeEntry>) -> Seq<TreeEntryModel> {
    Seq::new(entries.len(), |j: int| entries[j]@)
}

/// An unresolved merge: the file versions taken away and those put in.
pub struct Conflict {
    pub removes: Vec<FileId>,
    pub adds: Vec<FileId>,
}

/// Mathematical value of a [`Conflict`].
pub ghost struct ConflictModel {
    pub removes: Seq<FileId>,
    pub adds: Seq<FileId>,
}

impl View for Conflict {
    type V = ConflictModel;

    open spec fn view(&self) -> ConflictModel {
        ConflictModel { removes: self.removes@, adds: self.adds@ }
    }
}

} // verus!
