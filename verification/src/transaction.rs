//! The session in which a repository is changed: opened on a snapshot,
//! changed through a fixed set of operations, then committed or discarded.
//!
//! A transaction owns its view and its index. The store is the
//! repository's: the operations that read or write objects are handed it.

use vstd::prelude::*;
use crate::checkout::{
    checkout_error, conflicts_before, file_written_for, materialize_tree, materialized_entries,
    materializes, pruned_successor, selected_commit, selection_creates, CheckoutError,
};
use crate::commit_builder::CommitBuilder;
use crate::evolution::{is_obsolete, MutableEvolution, ReadonlyEvolution};
use crate::objects::{
    Commit, CommitData, CommitDataModel, CommitId, CommitModel, StoreHandle, Timestamp, TreeId,
};
use crate::operation::Operation;
use crate::repo::{ReadonlyRepo, Repo};
use crate::repo_view::{MutableView, ReadonlyView, ViewData, ViewModel};
use crate::settings::UserSettings;
use crate::store::{Store, StoreModel};

verus! {

/// The working state of one transaction: the snapshot it started from and
/// its own view and index. It has no store of its own. Reads like any
/// repository.
pub struct MutableRepo<'r> {
    repo: &'r ReadonlyRepo,
    view: MutableView,
    evolution: MutableEvolution,
}

impl<'r> MutableRepo<'r> {
    pub closed spec fn spec_base(&self) -> ReadonlyRepo {
        *self.repo
    }

    pub closed spec fn spec_view(&self) -> ViewModel {
        self.view@
    }

    pub closed spec fn spec_evolution(&self) -> MutableEvolution {
        self.evolution
    }

    /// `store` is well formed and is the store that the snapshot names,
    /// and what the index remembers is true of it and of this view.
    pub open spec fn wf_on(&self, store: StoreModel) -> bool {
        &&& store.wf()
        &&& store.handle == self.spec_base().spec_store()
        &&& self.spec_evolution().valid_for(store, self.spec_view().heads)
    }

    /// View and snapshot are those of `other`.
    pub open spec fn same_but_evolution(&self, other: &Self) -> bool {
        &&& self.spec_base() == other.spec_base()
        &&& self.spec_view() == other.spec_view()
    }

    pub fn view(&self) -> (view: &MutableView)
        ensures
            view@ == self.spec_view(),
    {
        &self.view
    }

    pub fn evolution(&self) -> (evolution: &MutableEvolution)
        ensures
            *evolution == self.spec_evolution(),
    {
        &self.evolution
    }

    /// The working index, for as long as the repository is borrowed.
    pub fn evolution_mut(&mut self) -> (evolution: &mut MutableEvolution)
        ensures
            *evolution == old(self).spec_evolution(),
            final(self).spec_evolution() == *final(evolution),
            final(self).same_but_evolution(old(self)),
    {
        &mut self.evolution
    }

    /// Computes the index for the current view and remembers it.
    pub fn refresh_evolution(&mut self, store: &Store)
        requires
            store@.wf(),
            store@.handle == old(self).spec_base().spec_store(),
        ensures
            final(self).wf_on(store@),
            final(self).spec_evolution().is_cached(),
            final(self).same_but_evolution(old(self)),
    {
        self.evolution.refresh(store, self.view.heads());
    }
}

impl<'r> Repo for MutableRepo<'r> {
    open spec fn repo_store(&self) -> StoreHandle {
        self.spec_base().spec_store()
    }

    open spec fn repo_view(&self) -> ViewModel {
        self.spec_view()
    }

    open spec fn repo_wf(&self, store: StoreModel) -> bool {
        self.wf_on(store)
    }

    /// The store of the snapshot: the working state names no other.
    fn store(&self) -> (handle: StoreHandle) {
        self.repo.store()
    }

    fn checkout(&self) -> (id: CommitId) {
        self.view.checkout()
    }

    fn has_head(&self, id: CommitId) -> (found: bool) {
        self.view.has_head(id)
    }

    /// Whether `id` is obsolete under the view as it stands now: never an
    /// answer from before the last change.
    fn is_obsolete(&self, store: &Store, id: CommitId) -> (obsolete: bool) {
        self.evolution.is_obsolete(store, self.view.heads(), id)
    }
}

enum State<'r> {
    Open(MutableRepo<'r>),
    Closed,
}

/// A transaction was released though neither `commit` nor `discard` had
/// been called on it.
#[derive(Clone, Copy, Debug, PartialEq, Eq, Structural)]
pub struct Unfinished;

pub struct Transaction<'r> {
    state: State<'r>,
    description: String,
    start_time: Timestamp,
}

impl<'r> Transaction<'r> {
    /// `commit` or `discard` has been called.
    pub closed spec fn is_closed(&self) -> bool {
        self.state is Closed
    }

    /// The working state, while the transaction is not closed.
    pub closed spec fn repo(&self) -> MutableRepo<'r> {
        match self.state {
            State::Open(repo) => repo,
            State::Closed => arbitrary(),
        }
    }

    pub closed spec fn spec_description(&self) -> Seq<char> {
        self.description@
    }

    pub closed spec fn spec_start_time(&self) -> Timestamp {
        self.start_time
    }

    pub open spec fn view_model(&self) -> ViewModel {
        self.repo().spec_view()
    }

    pub open spec fn base(&self) -> ReadonlyRepo {
        self.repo().spec_base()
    }

    /// Whether the index remembers answers.
    pub open spec fn cached(&self) -> bool {
        self.repo().spec_evolution().is_cached()
    }

    /// Not closed, `store` is the store of the snapshot, and the working
    /// state is well formed on it.
    pub open spec fn is_open_on(&self, store: StoreModel) -> bool {
        !self.is_closed() && self.repo().wf_on(store)
    }

    /// Description, start time and snapshot are those of `before`, and
    /// the transaction is closed if `before` is.
    pub open spec fn same_session(&self, before: Self) -> bool {
        &&& self.is_closed() == before.is_closed()
        &&& self.spec_description() == before.spec_description()
        &&& self.spec_start_time() == before.spec_start_time()
        &&& self.base() == before.base()
    }

    /// Nothing that can be observed differs from `before`.
    pub open spec fn same_state(&self, before: Self) -> bool {
        &&& self.view_model() == before.view_model()
        &&& self.repo().spec_evolution() == before.repo().spec_evolution()
        &&& self.same_session(before)
    }

    /// This is `before` after a commit of `data` was written through it and
    /// came back as `commit`, which took the store from `store0` to
    /// `store1`: the store holds the commit under the next free id, it is
    /// a head, and the index remembers nothing.
    pub open spec fn wrote(
        &self,
        before: Self,
        store0: StoreModel,
        store1: StoreModel,
        data: CommitDataModel,
        commit: CommitModel,
    ) -> bool {
        &&& commit == (CommitModel { id: store0.commits.len() as CommitId, data })
        &&& commit.id == store0.commits.len()
        &&& store1 == (StoreModel { commits: store0.commits.push(commit), ..store0 })
        &&& self.view_model() == (ViewModel {
            heads: before.view_model().heads.insert(commit.id),
            ..before.view_model()
        })
        &&& !self.cached()
        &&& self.is_open_on(store1)
        &&& self.same_session(before)
    }

    /// This is `before` after the commit that was checked out was left
    /// behind, under the user name `user`, which took the store from
    /// `store0` to `store1`, and nothing more: where that commit was empty,
    /// not pruned and not obsolete, its pruned rewrite is in the store and
    /// is a head, and the index has forgotten what it remembered; else
    /// nothing has changed. The checkout is not moved, and trees, files and
    /// conflicts are as they were.
    pub open spec fn left_behind(
        &self,
        before: Self,
        store0: StoreModel,
        store1: StoreModel,
        user: Seq<char>,
    ) -> bool {
        let view0 = before.view_model();
        let left = pruned_successor(
            store0,
            view0.heads,
            user,
            before.spec_start_time(),
            store0.commits[view0.checkout as int],
        );
        &&& store1 == (match left {
            Some(c) => StoreModel { commits: store0.commits.push(c), ..store0 },
            None => store0,
        })
        &&& self.view_model() == (match left {
            Some(c) => ViewModel { heads: view0.heads.insert(c.id), ..view0 },
            None => view0,
        })
        &&& match left {
            Some(_) => !self.cached(),
            None => self.repo().spec_evolution() == before.repo().spec_evolution(),
        }
        &&& self.is_open_on(store1)
        &&& self.same_session(before)
    }

    /// This is `before` after `target` was checked out with the result
    /// `result`, under the user name `user`, which took the store from
    /// `store0` to `store1`.
    ///
    /// The commit that was checked out before is left behind: where it
    /// was empty, not pruned and not obsolete, its pruned rewrite is
    /// written and made a head. The conflicts of the target's tree are
    /// materialized. The selected commit is written and made a head
    /// unless it is the target itself, and it is what is checked out now.
    /// Commits written here carry the transaction's start time. The index
    /// forgets what it remembers if a commit was written, and is left
    /// alone if none was.
    pub open spec fn checked_out(
        &self,
        before: Self,
        store0: StoreModel,
        store1: StoreModel,
        user: Seq<char>,
        target: CommitModel,
        result: CommitModel,
    ) -> bool {
        let view0 = before.view_model();
        let now = before.spec_start_time();
        let left = pruned_successor(
            store0,
            view0.heads,
            user,
            now,
            store0.commits[view0.checkout as int],
        );
        let commits1 = match left {
            Some(c) => store0.commits.push(c),
            None => store0.commits,
        };
        let heads1 = match left {
            Some(c) => view0.heads.insert(c.id),
            None => view0.heads,
        };
        let entries = store0.trees[target.data.tree as int];
        let resolved = conflicts_before(entries, entries.len() as int) == 0;
        let tree = if resolved {
            target.data.tree
        } else {
            store0.trees.len() as TreeId
        };
        let selected = selected_commit(commits1.len() as CommitId, user, now, target, tree);
        let creates = selection_creates(target, tree);
        &&& result == selected
        &&& !resolved ==> tree as int == store0.trees.len()
        &&& creates ==> selected.id as int == commits1.len()
        &&& store1.handle == store0.handle
        &&& store1.commits == if creates {
            commits1.push(selected)
        } else {
            commits1
        }
        &&& store1.conflicts == store0.conflicts
        &&& materializes(store0, entries, store1.files)
        &&& store1.trees == if resolved {
            store0.trees
        } else {
            store0.trees.push(materialized_entries(entries, store0.files.len()))
        }
        &&& self.view_model() == (ViewModel {
            heads: if creates {
                heads1.insert(selected.id)
            } else {
                heads1
            },
            checkout: selected.id,
        })
        &&& if left is None && !creates {
            self.repo().spec_evolution() == before.repo().spec_evolution()
        } else {
            !self.cached()
        }
        &&& self.is_open_on(store1)
        &&& self.same_session(before)
    }

    /// This is `before` after `commit` returned `op`: closed, and the
    /// record holds the view, the description and the start time as they
    /// stood.
    pub open spec fn committed(&self, before: Self, op: Operation) -> bool {
        &&& self.is_closed()
        &&& op.view_model() == before.view_model()
        &&& op.description_model() == before.spec_description()
        &&& op.start() == before.spec_start_time()
        &&& self.spec_description() == before.spec_description()
        &&& self.spec_start_time() == before.spec_start_time()
    }

    /// Opens a transaction on a snapshot of `store`. The transaction gets
    /// a view and an index of its own; the snapshot and the store are only
    /// read.
    pub fn new(
        repo: &'r ReadonlyRepo,
        store: &Store,
        view: &ReadonlyView,
        evolution: &ReadonlyEvolution,
        description: &str,
        start_time: Timestamp,
    ) -> (tx: Transaction<'r>)
        requires
            store@.wf(),
            store@.handle == repo.spec_store(),
            evolution.valid_for(store@, view@.heads),
        ensures
            tx.is_open_on(store@),
            tx.base() == *repo,
            tx.view_model() == view@,
            tx.spec_description() == description@,
            tx.spec_start_time() == start_time,
            tx.cached(),
    {
        let mut_view = view.start_modification();
        let mut_evolution = evolution.start_modification();
        let internal = MutableRepo { repo, view: mut_view, evolution: mut_evolution };
        Transaction { state: State::Open(internal), description: description.to_owned(), start_time }
    }

    pub fn as_repo(&self) -> (repo: &MutableRepo<'r>)
        requires
            !self.is_closed(),
        ensures
            *repo == self.repo(),
    {
        match &self.state {
            State::Open(repo) => repo,
            State::Closed => vstd::pervasive::unreached(),
        }
    }

    pub fn as_repo_mut(&mut self) -> (repo: &mut MutableRepo<'r>)
        requires
            !old(self).is_closed(),
        ensures
            *repo == old(self).repo(),
            final(self).repo() == *final(repo),
            !final(self).is_closed(),
            final(self).spec_description() == old(self).spec_description(),
            final(self).spec_start_time() == old(self).spec_start_time(),
    {
        match &mut self.state {
            State::Open(repo) => repo,
            State::Closed => vstd::pervasive::unreached(),
        }
    }

    /// The snapshot that the transaction was opened on.
    pub fn base_repo(&self) -> (repo: &'r ReadonlyRepo)
        requires
            !self.is_closed(),
        ensures
            *repo == self.base(),
    {
        self.as_repo().repo
    }

    /// The store of the transaction: that of the snapshot, by name.
    pub fn store(&self) -> (handle: StoreHandle)
        requires
            !self.is_closed(),
        ensures
            handle == self.base().spec_store(),
    {
        self.as_repo().repo.store()
    }

    /// Stores a new commit in the repository's store and makes it a head.
    pub fn write_commit(&mut self, store: &mut Store, data: CommitData) -> (commit: Commit)
        requires
            old(self).is_open_on(old(store)@),
        ensures
            final(self).wrote(*old(self), old(store)@, final(store)@, data@, commit@),
    {
        let commit = store.write_commit(data);
        let repo = self.as_repo_mut();
        repo.view.add_head(commit.id());
        repo.evolution.invalidate();
        commit
    }

    /// Whether `id` is obsolete under the view as it stands now.
    pub fn is_obsolete(&self, store: &Store, id: CommitId) -> (obsolete: bool)
        requires
            self.is_open_on(store@),
        ensures
            obsolete == is_obsolete(store@, self.view_model().heads, id),
    {
        self.as_repo().is_obsolete(store, id)
    }

    /// Moves the checkout to `commit`, or to a commit made from it.
    ///
    /// Refused, with nothing changed, where the commit that is checked out
    /// is not in the store or is closed, or where the target is not a
    /// commit of the store. Refused after the commit that is checked out
    /// was left behind, and so with its pruned rewrite written where one is
    /// due, where the target's tree or one of the tree's conflicts is not
    /// in the store: the checkout is then not moved, and nothing of the
    /// tree is written.
    pub fn check_out(&mut self, store: &mut Store, settings: &UserSettings, commit: &Commit) -> (result:
        Result<Commit, CheckoutError>)
        requires
            old(self).is_open_on(old(store)@),
        ensures
            match result {
                Err(e) => {
                    &&& checkout_error(old(store)@, old(self).view_model().checkout, commit@)
                        == Some(e)
                    &&& if e is TreeMissing || e is ConflictMissing {
                        final(self).left_behind(
                            *old(self),
                            old(store)@,
                            final(store)@,
                            settings@,
                        )
                    } else {
                        final(store)@ == old(store)@ && final(self).same_state(*old(self))
                    }
                    &&& final(self).is_open_on(final(store)@)
                },
                Ok(open_commit) => {
                    &&& checkout_error(old(store)@, old(self).view_model().checkout, commit@)
                        is None
                    &&& final(self).checked_out(
                        *old(self),
                        old(store)@,
                        final(store)@,
                        settings@,
                        commit@,
                        open_commit@,
                    )
                },
            },
    {
        let now = self.start_time;
        let repo = self.as_repo();
        let current_id = repo.view.checkout();
        let current = match store.get_commit(current_id) {
            Some(current) => current,
            None => {
                return Err(CheckoutError::CurrentCheckoutMissing(current_id));
            },
        };
        if !current.is_open() {
            return Err(CheckoutError::CurrentCheckoutClosed(current_id));
        }
        if !store.holds(commit) {
            return Err(CheckoutError::TargetMissing(commit.id()));
        }
        let prune = store.is_empty(&current) && !current.is_pruned() && !repo.is_obsolete(
            store,
            current_id,
        );
        let ghost store0 = store@;
        if prune {
            CommitBuilder::for_rewrite_from(settings, now, &current).set_pruned(
                true,
            ).write_to_transaction(self, store);
        }
        let ghost store1 = store@;
        let ghost heads1 = self.view_model().heads;
        let tree_id = match materialize_tree(store, commit.tree_id()) {
            Ok(tree_id) => tree_id,
            Err(e) => {
                return Err(e);
            },
        };
        proof {
            self.repo().spec_evolution().lemma_valid_for_same_commits(store1, store@, heads1);
            let entries = store0.trees[commit@.data.tree as int];
            assert forall|j: int| 0 <= j < entries.len() implies #[trigger] file_written_for(
                store0,
                entries,
                store@.files,
                j,
            ) by {
                assert(file_written_for(store1, entries, store@.files, j));
            }
        }
        let open_commit = if !commit.is_open() {
            CommitBuilder::for_open_commit(
                settings,
                now,
                commit.id(),
                tree_id,
            ).write_to_transaction(self, store)
        } else if tree_id != commit.tree_id() {
            CommitBuilder::for_rewrite_from(settings, now, commit).set_tree(
                tree_id,
            ).write_to_transaction(self, store)
        } else {
            commit.copy()
        };
        let id = open_commit.id();
        let repo = self.as_repo_mut();
        repo.view.set_checkout(id);
        Ok(open_commit)
    }

    /// Makes `id` the checkout and has the index forget what it
    /// remembers. The id is not looked up.
    pub fn set_checkout(&mut self, id: CommitId)
        requires
            !old(self).is_closed(),
        ensures
            final(self).view_model() == (ViewModel { checkout: id, ..old(self).view_model() }),
            !final(self).cached(),
            final(self).same_session(*old(self)),
    {
        let repo = self.as_repo_mut();
        repo.view.set_checkout(id);
        repo.evolution.invalidate();
    }

    /// Makes `head` a head and has the index forget what it remembers.
    pub fn add_head(&mut self, head: &Commit)
        requires
            !old(self).is_closed(),
        ensures
            final(self).view_model() == (ViewModel {
                heads: old(self).view_model().heads.insert(head@.id),
                ..old(self).view_model()
            }),
            !final(self).cached(),
            final(self).same_session(*old(self)),
    {
        let repo = self.as_repo_mut();
        repo.view.add_head(head.id());
        repo.evolution.invalidate();
    }

    /// Takes `head` from the heads and has the index forget what it
    /// remembers.
    pub fn remove_head(&mut self, head: &Commit)
        requires
            !old(self).is_closed(),
        ensures
            final(self).view_model() == (ViewModel {
                heads: old(self).view_model().heads.remove(head@.id),
                ..old(self).view_model()
            }),
            !final(self).cached(),
            final(self).same_session(*old(self)),
    {
        let repo = self.as_repo_mut();
        repo.view.remove_head(head.id());
        repo.evolution.invalidate();
    }

    /// Replaces the whole view by `data` and has the index forget what it
    /// remembers.
    pub fn set_view(&mut self, data: ViewData)
        requires
            !old(self).is_closed(),
        ensures
            final(self).view_model() == data@,
            !final(self).cached(),
            final(self).same_session(*old(self)),
    {
        let repo = self.as_repo_mut();
        repo.view.set_view(data);
        repo.evolution.invalidate();
    }

    /// Ends the transaction and returns the record of it: the view as it
    /// stands, under the description and the start time. The index is not
    /// part of the record. What was written stays in the store.
    pub fn commit(&mut self) -> (op: Operation)
        requires
            !old(self).is_closed(),
        ensures
            final(self).committed(*old(self), op),
    {
        let mut state = State::Closed;
        core::mem::swap(&mut self.state, &mut state);
        match state {
            State::Open(repo) => repo.view.save(self.description.clone(), self.start_time),
            State::Closed => vstd::pervasive::unreached(),
        }
    }

    /// Ends the transaction and keeps nothing of its view.
    pub fn discard(&mut self)
        requires
            !old(self).is_closed(),
        ensures
            final(self).is_closed(),
            final(self).spec_description() == old(self).spec_description(),
            final(self).spec_start_time() == old(self).spec_start_time(),
    {
        self.state = State::Closed;
    }

    /// Whether `commit` or `discard` has been called.
    pub fn closed(&self) -> (closed: bool)
        ensures
            closed == self.is_closed(),
    {
        match &self.state {
            State::Open(_) => false,
            State::Closed => true,
        }
    }

    /// What releasing the transaction now amounts to: a fault where it was
    /// never closed, unless the caller is already unwinding from another
    /// fault.
    pub fn on_release(&self, unwinding: bool) -> (result: Result<(), Unfinished>)
        ensures
            result is Err <==> (!self.is_closed() && !unwinding),
    {
        if !self.closed() && !unwinding {
            Err(Unfinished)
        } else {
            Ok(())
        }
    }
}

} // verus!
