use repo_transaction::checkout::CheckoutError;
use repo_transaction::objects::{Commit, CommitData, Conflict, TreeEntry, TreeValue};
use repo_transaction::repo::{ReadonlyRepo, Repo};
use repo_transaction::repo_view::{ReadonlyView, ViewData};
use repo_transaction::settings::UserSettings;
use repo_transaction::store::Store;
use repo_transaction::transaction::{Transaction, Unfinished};

fn data(tree: u64, parents: Vec<u64>, predecessors: Vec<u64>, open: bool, pruned: bool) -> CommitData {
    CommitData {
        tree,
        parents,
        predecessors,
        description: String::from("work"),
        timestamp: 7,
        author: String::from("ann"),
        committer: String::from("ann"),
        is_open: open,
        is_pruned: pruned,
    }
}

fn entry(path: &str, value: TreeValue) -> TreeEntry {
    TreeEntry { path: path.as_bytes().to_vec(), value }
}

/// Trees: 0 empty, 1 one file, 2 one file and one conflict.
/// Files: 0 "base\n", 1 "left\n", 2 "right\n".
/// Conflicts: 0 removes file 0, adds files 1 and 2.
/// Commits: 0 root (closed, tree 0), 1 closed on 0 (tree 1), 2 open on 1
/// with tree 1 (empty), 3 open on 1 with tree 2 (conflicted),
/// 4 open on 0 with tree 1 (not empty).
fn sample_store() -> Store {
    let mut store = Store::new(1);
    assert_eq!(store.write_file(b"base\n".to_vec()), 0);
    assert_eq!(store.write_file(b"left\n".to_vec()), 1);
    assert_eq!(store.write_file(b"right\n".to_vec()), 2);
    assert_eq!(store.write_conflict(Conflict { removes: vec![0], adds: vec![1, 2] }), 0);
    assert_eq!(store.write_tree(vec![]), 0);
    assert_eq!(
        store.write_tree(vec![entry("a", TreeValue::Normal { id: 0, executable: true })]),
        1
    );
    assert_eq!(
        store.write_tree(vec![
            entry("a", TreeValue::Normal { id: 0, executable: true }),
            entry("b", TreeValue::Conflict(0)),
        ]),
        2
    );
    assert_eq!(store.write_commit(data(0, vec![], vec![], false, false)).id(), 0);
    assert_eq!(store.write_commit(data(1, vec![0], vec![], false, false)).id(), 1);
    assert_eq!(store.write_commit(data(1, vec![1], vec![], true, false)).id(), 2);
    assert_eq!(store.write_commit(data(2, vec![1], vec![], true, false)).id(), 3);
    assert_eq!(store.write_commit(data(1, vec![0], vec![], true, false)).id(), 4);
    store
}

fn sample_repo(heads: Vec<u64>, checkout: u64) -> (Store, ReadonlyRepo) {
    let store = sample_store();
    let repo = ReadonlyRepo::new(&store, ReadonlyView::new(ViewData { head_ids: heads, checkout }));
    (store, repo)
}

fn open<'r>(repo: &'r ReadonlyRepo, store: &Store) -> Transaction<'r> {
    Transaction::new(repo, store, repo.view(), repo.evolution(), "test", 1000)
}

fn sorted_heads(tx: &Transaction) -> Vec<u64> {
    let mut heads = tx.as_repo().view().heads().clone();
    heads.sort();
    heads.dedup();
    heads
}

fn stored(store: &Store, id: u64) -> Commit {
    store.get_commit(id).unwrap()
}

fn settings() -> UserSettings {
    UserSettings::new(String::from("bob"))
}

fn read<R: Repo>(repo: &R, store: &Store, id: u64) -> (u64, bool, bool, u64) {
    (repo.checkout(), repo.has_head(id), repo.is_obsolete(store, id), repo.store())
}

#[test]
fn snapshot_and_working_state_read_alike() {
    let (mut store, repo) = sample_repo(vec![2], 2);
    let mut tx = open(&repo, &store);
    assert_eq!(read(&repo, &store, 2), (2, true, false, 1));
    assert_eq!(read(tx.as_repo(), &store, 2), (2, true, false, 1));
    let rewrite = tx.write_commit(&mut store, data(1, vec![1], vec![2], true, false));
    tx.set_checkout(rewrite.id());
    assert_eq!(read(tx.as_repo(), &store, 2), (5, true, true, 1));
    assert_eq!(read(tx.as_repo(), &store, 5), (5, true, false, 1));
    assert_eq!(read(&repo, &store, 2), (2, true, false, 1));
    assert_eq!(read(&repo, &store, 5), (2, false, false, 1));
    assert_eq!(tx.store(), repo.store());
    assert_eq!(tx.store(), store.handle());
    tx.discard();
}

#[test]
fn new_transaction_starts_from_the_snapshot() {
    let (store, repo) = sample_repo(vec![2, 3], 2);
    let mut tx = open(&repo, &store);
    assert!(!tx.closed());
    assert_eq!(sorted_heads(&tx), vec![2, 3]);
    assert_eq!(tx.as_repo().view().checkout(), 2);
    assert!(tx.as_repo().evolution().has_cache());
    assert_eq!(store.get_commit(4).unwrap().id(), 4);
    assert!(store.get_commit(5).is_none());
    assert_eq!(tx.base_repo().view().checkout(), 2);
    tx.discard();
    assert_eq!(tx.on_release(false), Ok(()));
}

#[test]
fn write_commit_stores_the_commit_and_makes_it_a_head() {
    let (mut store, repo) = sample_repo(vec![2], 2);
    let mut tx = open(&repo, &store);
    let commit = tx.write_commit(&mut store, data(1, vec![2], vec![], true, false));
    assert_eq!(commit.id(), 5);
    assert_eq!(commit.tree_id(), 1);
    assert_eq!(commit.parents(), &vec![2]);
    assert!(commit.is_open());
    assert_eq!(sorted_heads(&tx), vec![2, 5]);
    assert_eq!(stored(&store, 5).parents(), &vec![2]);
    assert!(!tx.as_repo().evolution().has_cache());
    assert_eq!(tx.store(), store.handle());
    assert_eq!(tx.base_repo().store(), store.handle());
    tx.discard();
}

#[test]
fn set_checkout_is_not_validated() {
    let (store, repo) = sample_repo(vec![2], 2);
    let mut tx = open(&repo, &store);
    tx.set_checkout(77);
    assert_eq!(tx.as_repo().view().checkout(), 77);
    assert_eq!(sorted_heads(&tx), vec![2]);
    assert!(!tx.as_repo().evolution().has_cache());
    assert!(!tx.is_obsolete(&store, 2));
    let op = tx.commit();
    assert_eq!(op.view_data().checkout, 77);
}

#[test]
fn add_and_remove_head_change_the_head_set() {
    let (store, repo) = sample_repo(vec![2], 2);
    let mut tx = open(&repo, &store);
    let three = stored(&store, 3);
    let two = stored(&store, 2);
    tx.add_head(&three);
    assert_eq!(sorted_heads(&tx), vec![2, 3]);
    assert!(!tx.as_repo().evolution().has_cache());
    tx.add_head(&three);
    assert_eq!(sorted_heads(&tx), vec![2, 3]);
    tx.remove_head(&two);
    assert_eq!(sorted_heads(&tx), vec![3]);
    tx.remove_head(&two);
    assert_eq!(sorted_heads(&tx), vec![3]);
    assert!(tx.as_repo().view().has_head(3));
    assert!(!tx.as_repo().view().has_head(2));
    tx.discard();
}

#[test]
fn set_view_replaces_heads_and_checkout() {
    let (store, repo) = sample_repo(vec![2], 2);
    let mut tx = open(&repo, &store);
    tx.set_view(ViewData { head_ids: vec![4, 3, 4], checkout: 4 });
    assert_eq!(sorted_heads(&tx), vec![3, 4]);
    assert_eq!(tx.as_repo().view().checkout(), 4);
    assert!(!tx.as_repo().evolution().has_cache());
    tx.discard();
}

#[test]
fn obsolescence_follows_every_change_of_the_view() {
    let (mut store, repo) = sample_repo(vec![2], 2);
    let mut tx = open(&repo, &store);
    assert!(!tx.is_obsolete(&store, 2));
    let rewrite = tx.write_commit(&mut store, data(1, vec![1], vec![2], true, false));
    assert_eq!(rewrite.id(), 5);
    assert!(tx.is_obsolete(&store, 2));
    assert!(!tx.is_obsolete(&store, 5));
    tx.as_repo_mut().refresh_evolution(&store);
    assert!(tx.as_repo().evolution().has_cache());
    assert!(tx.is_obsolete(&store, 2));
    tx.remove_head(&rewrite);
    assert!(!tx.is_obsolete(&store, 2));
    tx.as_repo_mut().refresh_evolution(&store);
    tx.add_head(&rewrite);
    assert!(tx.is_obsolete(&store, 2));
    tx.as_repo_mut().refresh_evolution(&store);
    tx.set_view(ViewData { head_ids: vec![2], checkout: 2 });
    assert!(!tx.is_obsolete(&store, 2));
    tx.as_repo_mut().refresh_evolution(&store);
    tx.set_view(ViewData { head_ids: vec![5, 9], checkout: 2 });
    assert!(tx.is_obsolete(&store, 2));
    assert!(!tx.is_obsolete(&store, 1));
    tx.discard();
}

#[test]
fn evolution_mut_hands_out_the_working_index() {
    let (store, repo) = sample_repo(vec![2], 2);
    let mut tx = open(&repo, &store);
    assert!(tx.as_repo().evolution().has_cache());
    tx.as_repo_mut().evolution_mut().invalidate();
    assert!(!tx.as_repo().evolution().has_cache());
    assert!(!tx.as_repo().is_obsolete(&store, 2));
    tx.discard();
}

#[test]
fn snapshot_index_is_computed_from_the_heads() {
    let mut store = sample_store();
    let rewrite = store.write_commit(data(1, vec![1], vec![2, 4], true, false));
    assert_eq!(rewrite.id(), 5);
    let unseen = ReadonlyRepo::new(&store,
        ReadonlyView::new(ViewData { head_ids: vec![2], checkout: 2 }),
    );
    assert!(!unseen.evolution().is_obsolete(2));
    let seen =
        ReadonlyRepo::new(&store, ReadonlyView::new(ViewData { head_ids: vec![5], checkout: 5 }));
    assert!(seen.evolution().is_obsolete(2));
    assert!(seen.evolution().is_obsolete(4));
    assert!(!seen.evolution().is_obsolete(5));
    let mut tx = open(&seen, &store);
    assert!(tx.is_obsolete(&store, 4));
    tx.discard();
}

#[test]
fn transactions_on_one_snapshot_do_not_see_each_other() {
    let (mut store, repo) = sample_repo(vec![2], 2);
    let mut first = open(&repo, &store);
    let mut second = open(&repo, &store);
    let written = first.write_commit(&mut store, data(1, vec![2], vec![2], true, false));
    first.set_checkout(written.id());
    assert_eq!(sorted_heads(&first), vec![2, 5]);
    assert_eq!(sorted_heads(&second), vec![2]);
    assert_eq!(second.as_repo().view().checkout(), 2);
    assert_eq!(store.get_commit(5).unwrap().predecessors(), &vec![2]);
    assert!(first.is_obsolete(&store, 2));
    assert!(!second.is_obsolete(&store, 2));
    assert!(!repo.is_obsolete(&store, 2));
    assert_eq!(repo.view().checkout(), 2);
    assert_eq!(repo.view().heads(), &vec![2]);
    assert_eq!(first.store(), second.store());
    let other = second.write_commit(&mut store, data(1, vec![2], vec![], true, false));
    assert_eq!(other.id(), 6);
    assert_eq!(sorted_heads(&second), vec![2, 6]);
    assert_eq!(sorted_heads(&first), vec![2, 5]);
    let third = open(&repo, &store);
    assert_eq!(sorted_heads(&third), vec![2]);
    let op = first.commit();
    assert_eq!(op.view_data().checkout, 5);
    assert_eq!(sorted_heads(&second), vec![2, 6]);
    second.discard();
    let mut third = third;
    third.discard();
}

#[test]
fn commit_records_the_final_view() {
    let (store, repo) = sample_repo(vec![2], 2);
    let mut tx = open(&repo, &store);
    let three = stored(&store, 3);
    tx.add_head(&three);
    tx.set_checkout(3);
    let op = tx.commit();
    assert!(tx.closed());
    assert_eq!(op.description(), "test");
    assert_eq!(op.start_time(), 1000);
    let replayed = op.to_view();
    let mut heads = replayed.heads().clone();
    heads.sort();
    assert_eq!(heads, vec![2, 3]);
    assert_eq!(replayed.checkout(), 3);
    assert!(replayed.has_head(3));
    assert!(!replayed.has_head(4));
    assert_eq!(tx.on_release(false), Ok(()));
}

#[test]
fn release_reports_an_unfinished_transaction() {
    let (store, repo) = sample_repo(vec![2], 2);
    let tx = open(&repo, &store);
    assert_eq!(tx.on_release(false), Err(Unfinished));
    let tx = open(&repo, &store);
    assert_eq!(tx.on_release(true), Ok(()));
    let mut tx = open(&repo, &store);
    tx.discard();
    assert!(tx.closed());
    assert_eq!(tx.on_release(false), Ok(()));
    let mut tx = open(&repo, &store);
    tx.discard();
    assert_eq!(tx.on_release(true), Ok(()));
}

#[test]
fn check_out_is_refused_when_the_current_checkout_is_closed() {
    let (mut store, repo) = sample_repo(vec![1], 1);
    let mut tx = open(&repo, &store);
    let target = stored(&store, 3);
    assert_eq!(tx.check_out(&mut store, &settings(), &target).err(), Some(CheckoutError::CurrentCheckoutClosed(1)));
    assert_eq!(tx.as_repo().view().checkout(), 1);
    assert_eq!(sorted_heads(&tx), vec![1]);
    assert!(store.get_commit(5).is_none());
    assert!(store.read_file(3).is_none());
    assert!(store.get_tree(3).is_none());
    tx.discard();
}

#[test]
fn check_out_is_refused_when_the_current_checkout_is_missing() {
    let (mut store, repo) = sample_repo(vec![2], 40);
    let mut tx = open(&repo, &store);
    let target = stored(&store, 2);
    assert_eq!(
        tx.check_out(&mut store, &settings(), &target).err(),
        Some(CheckoutError::CurrentCheckoutMissing(40))
    );
    assert_eq!(tx.as_repo().view().checkout(), 40);
    tx.discard();
}

fn broken_store() -> (Store, Commit, Commit) {
    let mut store = sample_store();
    let broken_tree = store.write_tree(vec![
        entry("x", TreeValue::Conflict(0)),
        entry("y", TreeValue::Conflict(8)),
        entry("z", TreeValue::Conflict(9)),
    ]);
    assert_eq!(broken_tree, 3);
    let no_tree = store.write_commit(data(11, vec![1], vec![], true, false));
    let no_conflict = store.write_commit(data(3, vec![1], vec![], true, false));
    assert_eq!(no_tree.id(), 5);
    assert_eq!(no_conflict.id(), 6);
    (store, no_tree, no_conflict)
}

#[test]
fn check_out_that_fails_on_the_tree_keeps_the_pruned_rewrite() {
    let (mut store, no_tree, no_conflict) = broken_store();
    let repo =
        ReadonlyRepo::new(&store, ReadonlyView::new(ViewData { head_ids: vec![2], checkout: 2 }));
    let mut tx = open(&repo, &store);
    assert!(tx.as_repo().evolution().has_cache());
    assert_eq!(
        tx.check_out(&mut store, &settings(), &no_tree).err(),
        Some(CheckoutError::TreeMissing(11))
    );
    assert_eq!(tx.as_repo().view().checkout(), 2);
    assert_eq!(sorted_heads(&tx), vec![2, 7]);
    let pruned = stored(&store, 7);
    assert!(pruned.is_pruned());
    assert_eq!(pruned.predecessors(), &vec![2]);
    assert_eq!(pruned.parents(), &vec![1]);
    assert_eq!(pruned.tree_id(), 1);
    assert!(!tx.as_repo().evolution().has_cache());
    assert!(tx.is_obsolete(&store, 2));
    assert!(store.get_commit(8).is_none());
    assert!(store.read_file(3).is_none());
    assert!(store.get_tree(4).is_none());
    assert_eq!(
        tx.check_out(&mut store, &settings(), &no_conflict).err(),
        Some(CheckoutError::ConflictMissing(8))
    );
    assert_eq!(tx.as_repo().view().checkout(), 2);
    assert_eq!(sorted_heads(&tx), vec![2, 7]);
    assert!(store.get_commit(8).is_none());
    assert!(store.read_file(3).is_none());
    assert!(store.get_tree(4).is_none());
    tx.discard();
}

#[test]
fn check_out_that_fails_on_a_conflict_keeps_the_pruned_rewrite() {
    let (mut store, _, no_conflict) = broken_store();
    let repo =
        ReadonlyRepo::new(&store, ReadonlyView::new(ViewData { head_ids: vec![2], checkout: 2 }));
    let mut tx = open(&repo, &store);
    assert_eq!(
        tx.check_out(&mut store, &settings(), &no_conflict).err(),
        Some(CheckoutError::ConflictMissing(8))
    );
    assert_eq!(tx.as_repo().view().checkout(), 2);
    assert_eq!(sorted_heads(&tx), vec![2, 7]);
    assert!(stored(&store, 7).is_pruned());
    assert_eq!(stored(&store, 7).predecessors(), &vec![2]);
    assert!(store.get_commit(8).is_none());
    assert!(store.read_file(3).is_none());
    assert!(store.get_tree(4).is_none());
    tx.discard();
}

#[test]
fn check_out_that_fails_on_the_tree_changes_nothing_without_a_prune() {
    let (mut store, no_tree, no_conflict) = broken_store();
    let repo =
        ReadonlyRepo::new(&store, ReadonlyView::new(ViewData { head_ids: vec![4], checkout: 4 }));
    let mut tx = open(&repo, &store);
    assert_eq!(
        tx.check_out(&mut store, &settings(), &no_tree).err(),
        Some(CheckoutError::TreeMissing(11))
    );
    assert_eq!(
        tx.check_out(&mut store, &settings(), &no_conflict).err(),
        Some(CheckoutError::ConflictMissing(8))
    );
    assert_eq!(tx.as_repo().view().checkout(), 4);
    assert_eq!(sorted_heads(&tx), vec![4]);
    assert!(tx.as_repo().evolution().has_cache());
    assert!(store.get_commit(7).is_none());
    assert!(store.read_file(3).is_none());
    assert!(store.get_tree(4).is_none());
    tx.discard();
}

#[test]
fn check_out_is_refused_for_a_commit_of_another_store() {
    let (mut store, repo) = sample_repo(vec![2], 2);
    let mut other_store = Store::new(2);
    other_store.write_commit(data(0, vec![], vec![], false, false));
    let foreign = other_store.write_commit(data(0, vec![0], vec![], true, false));
    assert_eq!(foreign.id(), 1);
    assert!(!store.holds(&foreign));
    assert!(other_store.holds(&foreign));
    assert!(store.holds(&stored(&store, 1)));
    let mut tx = open(&repo, &store);
    assert_eq!(
        tx.check_out(&mut store, &settings(), &foreign).err(),
        Some(CheckoutError::TargetMissing(1))
    );
    assert_eq!(tx.as_repo().view().checkout(), 2);
    assert_eq!(sorted_heads(&tx), vec![2]);
    assert!(store.get_commit(5).is_none());
    assert!(tx.as_repo().evolution().has_cache());
    tx.discard();
}

#[test]
fn check_out_of_an_open_commit_without_conflicts_keeps_it() {
    let (mut store, repo) = sample_repo(vec![4, 2], 4);
    let mut tx = open(&repo, &store);
    let target = stored(&store, 2);
    let result = tx.check_out(&mut store, &settings(), &target).unwrap();
    assert_eq!(result.id(), 2);
    assert_eq!(result.tree_id(), 1);
    assert_eq!(result.parents(), &vec![1]);
    assert!(result.is_open());
    assert_eq!(tx.as_repo().view().checkout(), 2);
    assert_eq!(sorted_heads(&tx), vec![2, 4]);
    assert!(store.get_commit(5).is_none());
    assert!(store.read_file(3).is_none());
    assert!(store.get_tree(3).is_none());
    tx.discard();
}

#[test]
fn check_out_prunes_the_empty_commit_it_leaves() {
    let (mut store, repo) = sample_repo(vec![2, 4], 2);
    let mut tx = open(&repo, &store);
    let target = stored(&store, 4);
    let result = tx.check_out(&mut store, &settings(), &target).unwrap();
    assert_eq!(result.id(), 4);
    let pruned = stored(&store, 5);
    assert!(pruned.is_pruned());
    assert!(pruned.is_open());
    assert_eq!(pruned.predecessors(), &vec![2]);
    assert_eq!(pruned.parents(), &vec![1]);
    assert_eq!(pruned.tree_id(), 1);
    assert_eq!(pruned.author(), "ann");
    assert_eq!(pruned.committer(), "bob");
    assert_eq!(sorted_heads(&tx), vec![2, 4, 5]);
    assert_eq!(tx.as_repo().view().checkout(), 4);
    assert!(tx.is_obsolete(&store, 2));
    assert!(store.get_commit(6).is_none());
    let back = stored(&store, 2);
    let again = tx.check_out(&mut store, &settings(), &back).unwrap();
    assert_eq!(again.id(), 2);
    assert!(store.get_commit(6).is_none());
    tx.discard();
}

#[test]
fn check_out_does_not_prune_what_is_pruned_obsolete_or_not_empty() {
    let mut store = sample_store();
    let pruned_empty = store.write_commit(data(1, vec![1], vec![], true, true));
    let rewritten = store.write_commit(data(1, vec![1], vec![2], true, false));
    assert_eq!(pruned_empty.id(), 5);
    assert_eq!(rewritten.id(), 6);
    for (heads, checkout) in [(vec![5u64], 5u64), (vec![2, 6], 2), (vec![4], 4)] {
        let repo = ReadonlyRepo::new(&store,
            ReadonlyView::new(ViewData { head_ids: heads.clone(), checkout }),
        );
        let mut tx = open(&repo, &store);
        let target = stored(&store, 6);
        let result = tx.check_out(&mut store, &settings(), &target).unwrap();
        assert_eq!(result.id(), 6);
        assert!(store.get_commit(7).is_none());
        assert_eq!(sorted_heads(&tx), heads);
        assert_eq!(tx.as_repo().view().checkout(), 6);
        tx.discard();
    }
}

#[test]
fn check_out_of_a_closed_commit_opens_a_new_one_on_top() {
    let (mut store, repo) = sample_repo(vec![4], 4);
    let mut tx = open(&repo, &store);
    let target = stored(&store, 1);
    assert!(!target.is_open());
    let result = tx.check_out(&mut store, &settings(), &target).unwrap();
    assert_eq!(result.id(), 5);
    assert!(result.is_open());
    assert!(!result.is_pruned());
    assert_eq!(result.parents(), &vec![1]);
    assert!(result.predecessors().is_empty());
    assert_eq!(result.tree_id(), 1);
    assert_eq!(result.author(), "bob");
    assert_eq!(result.committer(), "bob");
    assert_eq!(stored(&store, 5).parents(), &vec![1]);
    assert_eq!(sorted_heads(&tx), vec![4, 5]);
    assert_eq!(tx.as_repo().view().checkout(), 5);
    assert!(store.get_commit(6).is_none());
    tx.discard();
}

#[test]
fn check_out_materializes_the_conflicts_of_an_open_commit() {
    let (mut store, repo) = sample_repo(vec![4, 3], 4);
    let mut tx = open(&repo, &store);
    let target = stored(&store, 3);
    let result = tx.check_out(&mut store, &settings(), &target).unwrap();
    assert_eq!(result.id(), 5);
    assert!(result.is_open());
    assert_eq!(result.predecessors(), &vec![3]);
    assert_eq!(result.parents(), &vec![1]);
    assert_eq!(result.tree_id(), 3);
    assert_eq!(result.author(), "ann");
    assert_eq!(result.committer(), "bob");
    let tree = store.get_tree(3).unwrap();
    assert_eq!(tree.len(), 2);
    assert_eq!(tree[0].path, b"a".to_vec());
    assert_eq!(tree[0].value, TreeValue::Normal { id: 0, executable: true });
    assert_eq!(tree[1].path, b"b".to_vec());
    assert_eq!(tree[1].value, TreeValue::Normal { id: 3, executable: false });
    assert_eq!(
        store.read_file(3).unwrap(),
        &b"<<<<<<<\n-------\nbase\n+++++++\nleft\n+++++++\nright\n>>>>>>>\n".to_vec()
    );
    assert!(store.read_file(4).is_none());
    assert_eq!(sorted_heads(&tx), vec![3, 4, 5]);
    assert_eq!(tx.as_repo().view().checkout(), 5);
    assert!(tx.is_obsolete(&store, 3));
    let old_tree = store.get_tree(2).unwrap();
    assert_eq!(old_tree[1].value, TreeValue::Conflict(0));
    tx.discard();
}

#[test]
fn check_out_of_a_closed_commit_with_conflicts_and_an_empty_checkout() {
    let mut store = sample_store();
    let closed_conflicted = store.write_commit(data(2, vec![1], vec![], false, false));
    assert_eq!(closed_conflicted.id(), 5);
    let repo =
        ReadonlyRepo::new(&store, ReadonlyView::new(ViewData { head_ids: vec![2], checkout: 2 }));
    let mut tx = open(&repo, &store);
    let result = tx.check_out(&mut store, &settings(), &closed_conflicted).unwrap();
    assert!(stored(&store, 6).is_pruned());
    assert_eq!(stored(&store, 6).predecessors(), &vec![2]);
    assert_eq!(result.id(), 7);
    assert_eq!(result.parents(), &vec![5]);
    assert_eq!(result.tree_id(), 3);
    assert!(result.is_open());
    assert_eq!(sorted_heads(&tx), vec![2, 6, 7]);
    assert_eq!(tx.as_repo().view().checkout(), 7);
    let op = tx.commit();
    assert_eq!(op.to_view().checkout(), 7);
}

#[test]
fn committed_objects_and_view_make_the_next_snapshot() {
    let (mut store, repo) = sample_repo(vec![2, 4], 2);
    let mut tx = open(&repo, &store);
    let target = stored(&store, 4);
    tx.check_out(&mut store, &settings(), &target).unwrap();
    let op = tx.commit();
    assert!(tx.closed());
    assert_eq!(op.description(), "test");
    assert_eq!(op.start_time(), 1000);
    let next = ReadonlyRepo::new(&store, op.to_view());
    assert_eq!(read(&next, &store, 2), (4, true, true, 1));
    assert_eq!(read(&next, &store, 5), (4, true, false, 1));
    assert!(store.get_commit(5).unwrap().is_pruned());
    let mut heads = next.view().heads().clone();
    heads.sort();
    assert_eq!(heads, vec![2, 4, 5]);
    let mut again = open(&next, &store);
    assert!(again.as_repo().evolution().has_cache());
    assert!(again.is_obsolete(&store, 2));
    again.discard();
}

#[test]
fn check_out_is_refused_when_the_target_is_not_in_the_store() {
    let (mut store, repo) = sample_repo(vec![2], 2);
    let mut other_store = Store::new(2);
    for _ in 0..6 {
        other_store.write_commit(data(0, vec![], vec![], false, false));
    }
    let foreign = other_store.write_commit(data(1, vec![5], vec![], false, false));
    assert_eq!(foreign.id(), 6);
    let mut tx = open(&repo, &store);
    assert_eq!(
        tx.check_out(&mut store, &settings(), &foreign).err(),
        Some(CheckoutError::TargetMissing(6))
    );
    assert_eq!(tx.as_repo().view().checkout(), 2);
    assert_eq!(sorted_heads(&tx), vec![2]);
    assert!(store.get_commit(5).is_none());
    assert!(tx.as_repo().evolution().has_cache());
    tx.discard();
}

#[test]
fn commits_written_by_a_checkout_carry_the_start_time() {
    let (mut store, repo) = sample_repo(vec![2], 2);
    let mut tx = open(&repo, &store);
    let closed = stored(&store, 1);
    let result = tx.check_out(&mut store, &settings(), &closed).unwrap();
    let pruned = stored(&store, 5);
    assert_eq!(pruned.timestamp(), 1000);
    assert_eq!(pruned.description(), "work");
    assert_eq!(result.id(), 6);
    assert_eq!(result.timestamp(), 1000);
    assert_eq!(result.description(), "");
    assert_eq!(stored(&store, 2).timestamp(), 7);
    assert!(!tx.as_repo().evolution().has_cache());
    tx.discard();
}
