//! The one way in which new and rewritten commits enter a transaction.

use vstd::prelude::*;
use crate::objects::{
    copy_ids, Commit, CommitData, CommitDataModel, CommitId, CommitModel, Timestamp, TreeId,
};
use crate::store::Store;
use crate::settings::UserSettings;
use crate::transaction::Transaction;

verus! {

/// A fresh open commit on top of `parent`, written by `user` at `now`,
/// with an empty description.
pub open spec fn open_commit_data(user: Seq<char>, now: Timestamp, parent: CommitId, tree: TreeId)
    -> CommitDataModel {
    CommitDataModel {
        tree,
        parents: seq![parent],
        predecessors: Seq::empty(),
        description: Seq::empty(),
        timestamp: now,
        author: user,
        committer: user,
        is_open: true,
        is_pruned: false,
    }
}

/// A successor of `predecessor`, written by `user` at `now`: the same
/// commit but for the committer and the time, with `predecessor` as its
/// only predecessor.
pub open spec fn rewrite_data(user: Seq<char>, now: Timestamp, predecessor: CommitModel)
    -> CommitDataModel {
    CommitDataModel {
        predecessors: seq![predecessor.id],
        committer: user,
        timestamp: now,
        ..predecessor.data
    }
}

pub struct CommitBuilder {
    data: CommitData,
}

impl View for CommitBuilder {
    type V = CommitDataModel;

    closed spec fn view(&self) -> CommitDataModel {
        self.data@
    }
}

impl CommitBuilder {
    pub fn for_open_commit(
        settings: &UserSettings,
        now: Timestamp,
        parent_id: CommitId,
        tree_id: TreeId,
    ) -> (out: CommitBuilder)
        ensures
            out@ == open_commit_data(settings@, now, parent_id, tree_id),
    {
        let mut parents: Vec<CommitId> = Vec::new();
        parents.push(parent_id);
        let predecessors: Vec<CommitId> = Vec::new();
        assert(parents@ =~= seq![parent_id]);
        assert(predecessors@ =~= Seq::empty());
        CommitBuilder {
            data: CommitData {
                tree: tree_id,
                parents,
                predecessors,
                description: String::new(),
                timestamp: now,
                author: settings.user().clone(),
                committer: settings.user().clone(),
                is_open: true,
                is_pruned: false,
            },
        }
    }

    pub fn for_rewrite_from(settings: &UserSettings, now: Timestamp, predecessor: &Commit) -> (out:
        CommitBuilder)
        ensures
            out@ == rewrite_data(settings@, now, predecessor@),
    {
        let mut predecessors: Vec<CommitId> = Vec::new();
        predecessors.push(predecessor.id());
        assert(predecessors@ =~= seq![predecessor@.id]);
        CommitBuilder {
            data: CommitData {
                tree: predecessor.tree_id(),
                parents: copy_ids(predecessor.parents()),
                predecessors,
                description: predecessor.description().clone(),
                timestamp: now,
                author: predecessor.author().clone(),
                committer: settings.user().clone(),
                is_open: predecessor.is_open(),
                is_pruned: predecessor.is_pruned(),
            },
        }
    }

    pub fn set_tree(self, tree_id: TreeId) -> (out: CommitBuilder)
        ensures
            out@ == (CommitDataModel { tree: tree_id, ..self@ }),
    {
        let mut data = self.data;
        data.tree = tree_id;
        CommitBuilder { data }
    }

    pub fn set_pruned(self, pruned: bool) -> (out: CommitBuilder)
        ensures
            out@ == (CommitDataModel { is_pruned: pruned, ..self@ }),
    {
        let mut data = self.data;
        data.is_pruned = pruned;
        CommitBuilder { data }
    }

    /// Stores the commit through the transaction, which makes it a head.
    pub fn write_to_transaction(self, tx: &mut Transaction, store: &mut Store) -> (commit: Commit)
        requires
            old(tx).is_open_on(old(store)@),
        ensures
            final(tx).wrote(*old(tx), old(store)@, final(store)@, self@, commit@),
    {
        tx.write_commit(store, self.data)
    }
}

} // verus!
