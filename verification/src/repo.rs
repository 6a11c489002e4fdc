//! An immutable snapshot of a repository, and what can be read of any
//! repository.

use vstd::prelude::*;
use crate::evolution::{is_obsolete, ReadonlyEvolution};
use crate::objects::{CommitId, StoreHandle};
use crate::repo_view::{ReadonlyView, ViewModel};
use crate::store::{Store, StoreModel};

verus! {

/// What can be read of any repository, be it a snapshot or the working
/// state of a transaction. A repository names its store and owns none:
/// a question that needs the objects is handed the store.
pub trait Repo {
    /// The name of the store that the repository belongs to.
    spec fn repo_store(&self) -> StoreHandle;

    /// The heads and the checkout.
    spec fn repo_view(&self) -> ViewModel;

    /// `store` is the repository's store, and the repository's index is
    /// true of it.
    spec fn repo_wf(&self, store: StoreModel) -> bool;

    fn store(&self) -> (handle: StoreHandle)
        ensures
            handle == self.repo_store(),
    ;

    fn checkout(&self) -> (id: CommitId)
        ensures
            id == self.repo_view().checkout,
    ;

    fn has_head(&self, id: CommitId) -> (found: bool)
        ensures
            found == self.repo_view().heads.contains(id),
    ;

    fn is_obsolete(&self, store: &Store, id: CommitId) -> (obsolete: bool)
        requires
            self.repo_wf(store@),
        ensures
            obsolete == is_obsolete(store@, self.repo_view().heads, id),
    ;
}

/// The view and the index of one repository state, and the name of the
/// store it belongs to. Nothing changes a snapshot: a transaction works on
/// copies of its view and index.
pub struct ReadonlyRepo {
    store: StoreHandle,
    view: ReadonlyView,
    evolution: ReadonlyEvolution,
}

impl ReadonlyRepo {
    pub closed spec fn spec_store(&self) -> StoreHandle {
        self.store
    }

    pub closed spec fn spec_view(&self) -> ReadonlyView {
        self.view
    }

    pub closed spec fn spec_evolution(&self) -> ReadonlyEvolution {
        self.evolution
    }

    /// `store` is well formed and is the store that the snapshot names,
    /// and the index answers for it and for this view.
    pub open spec fn wf_on(&self, store: StoreModel) -> bool {
        &&& store.wf()
        &&& store.handle == self.spec_store()
        &&& self.spec_evolution().valid_for(store, self.spec_view()@.heads)
    }

    /// The snapshot of a store under a view. The index is computed here,
    /// once.
    pub fn new(store: &Store, view: ReadonlyView) -> (repo: ReadonlyRepo)
        requires
            store@.wf(),
        ensures
            repo.wf_on(store@),
            repo.spec_store() == store@.handle,
            repo.spec_view() == view,
    {
        let evolution = ReadonlyEvolution::new(store, view.heads());
        ReadonlyRepo { store: store.handle(), view, evolution }
    }

    pub fn view(&self) -> (view: &ReadonlyView)
        ensures
            *view == self.spec_view(),
    {
        &self.view
    }

    pub fn evolution(&self) -> (evolution: &ReadonlyEvolution)
        ensures
            *evolution == self.spec_evolution(),
    {
        &self.evolution
    }
}

impl Repo for ReadonlyRepo {
    open spec fn repo_store(&self) -> StoreHandle {
        self.spec_store()
    }

    open spec fn repo_view(&self) -> ViewModel {
        self.spec_view()@
    }

    open spec fn repo_wf(&self, store: StoreModel) -> bool {
        self.wf_on(store)
    }

    fn store(&self) -> (handle: StoreHandle) {
        self.store
    }

    fn checkout(&self) -> (id: CommitId) {
        self.view.checkout()
    }

    fn has_head(&self, id: CommitId) -> (found: bool) {
        self.view.has_head(id)
    }

    fn is_obsolete(&self, store: &Store, id: CommitId) -> (obsolete: bool) {
        let obsolete = self.evolution.is_obsolete(id);
        assert(obsolete == self.spec_evolution().answers(id));
        obsolete
    }
}

} // verus!
