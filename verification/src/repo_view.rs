//! The view of a repository: which commits are heads, and which commit is
//! checked out. A frozen form for snapshots and a working form that a
//! transaction edits.

use vstd::prelude::*;
use crate::objects::{copy_ids, lemma_push_contains, CommitId, Timestamp};
use crate::operation::Operation;

verus! {

/// Mathematical value of a view. The heads are a set: the order in which
/// they were added, and how often, leaves no trace.
pub ghost struct ViewModel {
    pub heads: Set<CommitId>,
    pub checkout: CommitId,
}

/// The form in which a view is stored and exchanged.
pub struct ViewData {
    pub head_ids: Vec<CommitId>,
    pub checkout: CommitId,
}

impl View for ViewData {
    type V = ViewModel;

    open spec fn view(&self) -> ViewModel {
        ViewModel { heads: self.head_ids@.to_set(), checkout: self.checkout }
    }
}

impl ViewData {
    pub fn copy(&self) -> (out: ViewData)
        ensures
            out@ == self@,
            out.head_ids@ == self.head_ids@,
    {
        ViewData { head_ids: copy_ids(&self.head_ids), checkout: self.checkout }
    }
}

/// Whether `id` occurs in `ids`.
pub fn contains_id(ids: &Vec<CommitId>, id: CommitId) -> (found: bool)
    ensures
        found == ids@.contains(id),
{
    let mut i: usize = 0;
    while i < ids.len()
        invariant
            i <= ids.len(),
            forall|j: int| 0 <= j < i ==> ids@[j] != id,
        decreases ids.len() - i,
    {
        if ids[i] == id {
            return true;
        }
        i += 1;
    }
    false
}

/// Whether two lists of ids are the same list.
pub fn same_ids(a: &Vec<CommitId>, b: &Vec<CommitId>) -> (same: bool)
    ensures
        same == (a@ == b@),
{
    if a.len() != b.len() {
        return false;
    }
    let mut i: usize = 0;
    while i < a.len()
        invariant
            i <= a.len(),
            a@.len() == b@.len(),
            forall|j: int| 0 <= j < i ==> a@[j] == b@[j],
        decreases a.len() - i,
    {
        if a[i] != b[i] {
            return false;
        }
        i += 1;
    }
    assert(a@ =~= b@);
    true
}

/// The view of a snapshot. Nothing changes it.
pub struct ReadonlyView {
    data: ViewData,
}

impl View for ReadonlyView {
    type V = ViewModel;

    closed spec fn view(&self) -> ViewModel {
        self.data@
    }
}

impl ReadonlyView {
    pub fn new(data: ViewData) -> (out: ReadonlyView)
        ensures
            out@ == data@,
    {
        ReadonlyView { data }
    }

    pub fn checkout(&self) -> (id: CommitId)
        ensures
            id == self@.checkout,
    {
        self.data.checkout
    }

    pub fn has_head(&self, id: CommitId) -> (found: bool)
        ensures
            found == self@.heads.contains(id),
    {
        contains_id(&self.data.head_ids, id)
    }

    /// The heads, each at least once, in no stated order.
    pub fn heads(&self) -> (ids: &Vec<CommitId>)
        ensures
            ids@.to_set() == self@.heads,
    {
        &self.data.head_ids
    }

    /// A working copy of this view. The snapshot is left as it is.
    pub fn start_modification(&self) -> (working: MutableView)
        ensures
            working@ == self@,
    {
        MutableView { data: self.data.copy() }
    }
}

/// The working view of one transaction.
pub struct MutableView {
    data: ViewData,
}

impl View for MutableView {
    type V = ViewModel;

    closed spec fn view(&self) -> ViewModel {
        self.data@
    }
}

impl MutableView {
    pub fn checkout(&self) -> (id: CommitId)
        ensures
            id == self@.checkout,
    {
        self.data.checkout
    }

    pub fn has_head(&self, id: CommitId) -> (found: bool)
        ensures
            found == self@.heads.contains(id),
    {
        contains_id(&self.data.head_ids, id)
    }

    /// The heads, each at least once, in no stated order.
    pub fn heads(&self) -> (ids: &Vec<CommitId>)
        ensures
            ids@.to_set() == self@.heads,
    {
        &self.data.head_ids
    }

    pub fn set_checkout(&mut self, id: CommitId)
        ensures
            final(self)@ == (ViewModel { checkout: id, ..old(self)@ }),
    {
        self.data.checkout = id;
    }

    pub fn add_head(&mut self, id: CommitId)
        ensures
            final(self)@ == (ViewModel { heads: old(self)@.heads.insert(id), ..old(self)@ }),
    {
        if !contains_id(&self.data.head_ids, id) {
            self.data.head_ids.push(id);
        }
        proof {
            assert forall|x: CommitId|
                self.data.head_ids@.contains(x) == (old(self).data.head_ids@.contains(x) || x
                    == id) by {
                if !old(self).data.head_ids@.contains(id) {
                    lemma_push_contains(old(self).data.head_ids@, id, x);
                }
            }
            assert(self.data.head_ids@.to_set() =~= old(self).data.head_ids@.to_set().insert(id));
        }
    }

    pub fn remove_head(&mut self, id: CommitId)
        ensures
            final(self)@ == (ViewModel { heads: old(self)@.heads.remove(id), ..old(self)@ }),
    {
        let mut kept: Vec<CommitId> = Vec::new();
        let mut i: usize = 0;
        while i < self.data.head_ids.len()
            invariant
                i <= self.data.head_ids.len(),
                self.data == old(self).data,
                forall|x: CommitId|
                    kept@.contains(x) <==> (x != id && exists|j: int|
                        0 <= j < i && self.data.head_ids@[j] == x),
            decreases self.data.head_ids.len() - i,
        {
            let h: CommitId = self.data.head_ids[i];
            if h != id {
                let ghost before = kept@;
                kept.push(h);
                proof {
                    assert forall|x: CommitId|
                        kept@.contains(x) <==> (x != id && exists|j: int|
                            0 <= j < i + 1 && self.data.head_ids@[j] == x) by {
                        if kept@.contains(x) {
                            let k = choose|k: int| 0 <= k < kept@.len() && kept@[k] == x;
                            if k < before.len() {
                                assert(before[k] == x);
                                assert(before.contains(x));
                            } else {
                                assert(self.data.head_ids@[i as int] == x);
                            }
                        }
                        if x != id && exists|j: int|
                            0 <= j < i + 1 && self.data.head_ids@[j] == x {
                            let j = choose|j: int| 0 <= j < i + 1 && self.data.head_ids@[j] == x;
                            if j < i {
                                assert(before.contains(x));
                                let k = choose|k: int| 0 <= k < before.len() && before[k] == x;
                                assert(kept@[k] == x);
                            } else {
                                assert(kept@[before.len() as int] == x);
                            }
                        }
                    }
                }
            }
            i += 1;
        }
        self.data.head_ids = kept;
        proof {
            assert(self.data.head_ids@.to_set() =~= old(self).data.head_ids@.to_set().remove(id));
        }
    }

    /// Replaces the whole view by what `data` holds.
    pub fn set_view(&mut self, data: ViewData)
        ensures
            final(self)@ == data@,
    {
        self.data = data;
    }

    /// The persisted record of this view under `description` and
    /// `start_time`.
    pub fn save(self, description: String, start_time: Timestamp) -> (op: Operation)
        ensures
            op.view_model() == self@,
            op.description_model() == description@,
            op.start() == start_time,
    {
        Operation::new(description, start_time, self.data)
    }
}

} // verus!
