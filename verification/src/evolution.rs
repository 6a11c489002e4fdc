//! Which commits are obsolete: superseded by a rewrite that is a head of
//! the view. The answer is a function of the store and of the head set; an
//! index only remembers it.

use vstd::prelude::*;
use crate::objects::{copy_ids, lemma_push_contains, CommitId};
use crate::repo_view::contains_id;
use crate::store::{Store, StoreModel};

verus! {

/// `successor` is a stored commit that names `id` among its predecessors.
pub open spec fn rewrites(store: StoreModel, successor: CommitId, id: CommitId) -> bool {
    store.has_commit(successor) && store.commits[successor as int].data.predecessors.contains(id)
}

/// `id` is obsolete: some head is a stored commit that rewrites it.
pub open spec fn is_obsolete(store: StoreModel, heads: Set<CommitId>, id: CommitId) -> bool {
    exists|s: CommitId| heads.contains(s) && #[trigger] rewrites(store, s, id)
}

/// One of the first `n` entries of `heads` rewrites `id`.
pub open spec fn rewritten_within(
    store: StoreModel,
    heads: Seq<CommitId>,
    n: int,
    id: CommitId,
) -> bool {
    exists|j: int| 0 <= j < n && j < heads.len() && #[trigger] rewrites(store, heads[j], id)
}

/// Looking at every entry of a list of heads decides obsolescence under
/// the set of those heads.
pub proof fn lemma_rewritten_within_all(store: StoreModel, heads: Seq<CommitId>, id: CommitId)
    ensures
        rewritten_within(store, heads, heads.len() as int, id) == is_obsolete(
            store,
            heads.to_set(),
            id,
        ),
{
    if rewritten_within(store, heads, heads.len() as int, id) {
        let j = choose|j: int|
            0 <= j < heads.len() && j < heads.len() && #[trigger] rewrites(store, heads[j], id);
        assert(heads.contains(heads[j]));
        assert(heads.to_set().contains(heads[j]));
    }
    if is_obsolete(store, heads.to_set(), id) {
        let s = choose|s: CommitId| heads.to_set().contains(s) && #[trigger] rewrites(store, s, id);
        assert(heads.contains(s));
        let j = choose|j: int| 0 <= j < heads.len() && heads[j] == s;
        assert(rewrites(store, heads[j], id));
    }
}

/// Decides obsolescence from the store and the heads, with no index.
pub fn compute_is_obsolete(store: &Store, head_ids: &Vec<CommitId>, id: CommitId) -> (obsolete:
    bool)
    ensures
        obsolete == is_obsolete(store@, head_ids@.to_set(), id),
{
    let mut i: usize = 0;
    while i < head_ids.len()
        invariant
            i <= head_ids.len(),
            !rewritten_within(store@, head_ids@, i as int, id),
        decreases head_ids.len() - i,
    {
        let found = store.get_commit(head_ids[i]);
        if let Some(commit) = found {
            if contains_id(commit.predecessors(), id) {
                proof {
                    assert(rewrites(store@, head_ids@[i as int], id));
                    assert(rewritten_within(store@, head_ids@, head_ids@.len() as int, id));
                    lemma_rewritten_within_all(store@, head_ids@, id);
                }
                return true;
            }
        }
        proof {
            assert(!rewrites(store@, head_ids@[i as int], id));
            if rewritten_within(store@, head_ids@, i + 1, id) {
                let j = choose|j: int|
                    0 <= j < i + 1 && j < head_ids@.len() && #[trigger] rewrites(
                        store@,
                        head_ids@[j],
                        id,
                    );
                assert(j < i);
                assert(rewritten_within(store@, head_ids@, i as int, id));
            }
        }
        i += 1;
    }
    proof {
        lemma_rewritten_within_all(store@, head_ids@, id);
    }
    false
}

/// Every obsolete commit id under the store and the heads, and no other.
pub fn compute_obsolete_ids(store: &Store, head_ids: &Vec<CommitId>) -> (out: Vec<CommitId>)
    ensures
        forall|id: CommitId| #[trigger]
            out@.contains(id) == is_obsolete(store@, head_ids@.to_set(), id),
{
    let mut out: Vec<CommitId> = Vec::new();
    let mut i: usize = 0;
    while i < head_ids.len()
        invariant
            i <= head_ids.len(),
            forall|id: CommitId| #[trigger]
                out@.contains(id) == rewritten_within(store@, head_ids@, i as int, id),
        decreases head_ids.len() - i,
    {
        let found = store.get_commit(head_ids[i]);
        let ghost before = out@;
        match found {
            Some(commit) => {
                let preds = commit.predecessors();
                let mut k: usize = 0;
                while k < preds.len()
                    invariant
                        k <= preds.len(),
                        forall|id: CommitId| #[trigger]
                            out@.contains(id) == (before.contains(id) || exists|m: int|
                                0 <= m < k && preds@[m] == id),
                    decreases preds.len() - k,
                {
                    let ghost prior = out@;
                    out.push(preds[k]);
                    proof {
                        assert forall|id: CommitId| #[trigger]
                            out@.contains(id) == (before.contains(id) || exists|m: int|
                                0 <= m < k + 1 && preds@[m] == id) by {
                            lemma_push_contains(prior, preds@[k as int], id);
                            if id == preds@[k as int] {
                                assert(0 <= k < k + 1 && preds@[k as int] == id);
                            }
                        }
                    }
                    k += 1;
                }
                proof {
                    assert forall|id: CommitId| #[trigger]
                        out@.contains(id) == rewritten_within(
                            store@,
                            head_ids@,
                            i + 1,
                            id,
                        ) by {
                        lemma_rewritten_step(store@, head_ids@, i as int, id);
                        if preds@.contains(id) {
                            let m = choose|m: int| 0 <= m < preds@.len() && preds@[m] == id;
                            assert(0 <= m < k && preds@[m] == id);
                        }
                    }
                }
            },
            None => {
                proof {
                    assert forall|id: CommitId| #[trigger]
                        out@.contains(id) == rewritten_within(
                            store@,
                            head_ids@,
                            i + 1,
                            id,
                        ) by {
                        lemma_rewritten_step(store@, head_ids@, i as int, id);
                    }
                }
            },
        }
        i += 1;
    }
    proof {
        assert forall|id: CommitId| #[trigger]
            out@.contains(id) == is_obsolete(store@, head_ids@.to_set(), id) by {
            lemma_rewritten_within_all(store@, head_ids@, id);
        }
    }
    out
}

/// Obsolescence reads nothing of a store but its commits.
pub proof fn lemma_obsolete_reads_commits(
    a: StoreModel,
    b: StoreModel,
    heads: Set<CommitId>,
    id: CommitId,
)
    requires
        a.commits == b.commits,
    ensures
        is_obsolete(a, heads, id) == is_obsolete(b, heads, id),
{
    if is_obsolete(a, heads, id) {
        let s = choose|s: CommitId| heads.contains(s) && #[trigger] rewrites(a, s, id);
        assert(rewrites(b, s, id));
    }
    if is_obsolete(b, heads, id) {
        let s = choose|s: CommitId| heads.contains(s) && #[trigger] rewrites(b, s, id);
        assert(rewrites(a, s, id));
    }
}

/// One more head looked at: what was found before, or what that head
/// rewrites.
pub proof fn lemma_rewritten_step(store: StoreModel, heads: Seq<CommitId>, i: int, id: CommitId)
    requires
        0 <= i < heads.len(),
    ensures
        rewritten_within(store, heads, i + 1, id) == (rewritten_within(store, heads, i, id)
            || rewrites(store, heads[i], id)),
{
    if rewritten_within(store, heads, i + 1, id) {
        let j = choose|j: int|
            0 <= j < i + 1 && j < heads.len() && #[trigger] rewrites(store, heads[j], id);
        if j < i {
            assert(rewritten_within(store, heads, i, id));
        }
    }
    if rewritten_within(store, heads, i, id) {
        let j = choose|j: int|
            0 <= j < i && j < heads.len() && #[trigger] rewrites(store, heads[j], id);
        assert(0 <= j < i + 1 && rewrites(store, heads[j], id));
    }
    if rewrites(store, heads[i], id) {
        assert(0 <= i < i + 1 && rewrites(store, heads[i], id));
    }
}

/// The index of a snapshot: computed once, then frozen.
pub struct ReadonlyEvolution {
    obsolete: Vec<CommitId>,
}

impl ReadonlyEvolution {
    /// What the index answers for `id`.
    pub closed spec fn answers(&self, id: CommitId) -> bool {
        self.obsolete@.contains(id)
    }

    /// The index answers as the store and the heads demand.
    pub open spec fn valid_for(&self, store: StoreModel, heads: Set<CommitId>) -> bool {
        forall|id: CommitId| #[trigger] self.answers(id) == is_obsolete(store, heads, id)
    }

    /// The index of the given store and heads.
    pub fn new(store: &Store, head_ids: &Vec<CommitId>) -> (out: ReadonlyEvolution)
        ensures
            out.valid_for(store@, head_ids@.to_set()),
    {
        ReadonlyEvolution { obsolete: compute_obsolete_ids(store, head_ids) }
    }

    pub fn is_obsolete(&self, id: CommitId) -> (obsolete: bool)
        ensures
            obsolete == self.answers(id),
    {
        contains_id(&self.obsolete, id)
    }

    /// A working index that starts out remembering what this one holds.
    pub fn start_modification(&self) -> (working: MutableEvolution)
        ensures
            working.is_cached(),
            forall|id: CommitId| #[trigger] working.cached_answer(id) == self.answers(id),
    {
        MutableEvolution { cache: Some(copy_ids(&self.obsolete)) }
    }
}

/// The index of a transaction: remembers the answers for one state of the
/// view and forgets them whenever the view changes.
pub struct MutableEvolution {
    cache: Option<Vec<CommitId>>,
}

impl MutableEvolution {
    /// Whether answers are remembered.
    pub closed spec fn is_cached(&self) -> bool {
        self.cache is Some
    }

    /// The remembered answer for `id`.
    pub closed spec fn cached_answer(&self, id: CommitId) -> bool {
        self.cache is Some && self.cache->0@.contains(id)
    }

    /// Whatever is remembered is what the store and the heads demand.
    pub open spec fn valid_for(&self, store: StoreModel, heads: Set<CommitId>) -> bool {
        self.is_cached() ==> forall|id: CommitId| #[trigger]
            self.cached_answer(id) == is_obsolete(store, heads, id)
    }

    /// What is remembered stays true when only files and trees are added
    /// to the store.
    pub proof fn lemma_valid_for_same_commits(
        &self,
        a: StoreModel,
        b: StoreModel,
        heads: Set<CommitId>,
    )
        requires
            self.valid_for(a, heads),
            a.commits == b.commits,
        ensures
            self.valid_for(b, heads),
    {
        if self.is_cached() {
            assert forall|id: CommitId| #[trigger]
                self.cached_answer(id) == is_obsolete(b, heads, id) by {
                lemma_obsolete_reads_commits(a, b, heads, id);
            }
        }
    }

    /// Forgets every remembered answer.
    pub fn invalidate(&mut self)
        ensures
            !final(self).is_cached(),
    {
        self.cache = None;
    }

    /// Whether answers are remembered.
    pub fn has_cache(&self) -> (cached: bool)
        ensures
            cached == self.is_cached(),
    {
        self.cache.is_some()
    }

    /// Computes the answers for the given store and heads and remembers
    /// them.
    pub(crate) fn refresh(&mut self, store: &Store, head_ids: &Vec<CommitId>)
        ensures
            final(self).is_cached(),
            final(self).valid_for(store@, head_ids@.to_set()),
    {
        self.cache = Some(compute_obsolete_ids(store, head_ids));
    }

    /// Whether `id` is obsolete under the given store and heads: the
    /// remembered answer where there is one, else computed afresh.
    pub fn is_obsolete(&self, store: &Store, head_ids: &Vec<CommitId>, id: CommitId) -> (obsolete:
        bool)
        requires
            self.valid_for(store@, head_ids@.to_set()),
        ensures
            obsolete == is_obsolete(store@, head_ids@.to_set(), id),
    {
        match &self.cache {
            Some(ids) => {
                let found = contains_id(ids, id);
                assert(found == self.cached_answer(id));
                found
            },
            None => compute_is_obsolete(store, head_ids, id),
        }
    }
}

} // verus!
