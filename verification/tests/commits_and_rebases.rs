use jj_testkit::commits::commit_with_tree;
use jj_testkit::commits::create_random_commit;
use jj_testkit::commits::numbered_commit;
use jj_testkit::commits::Commit;
use jj_testkit::commits::CommitGraphBuilder;
use jj_testkit::commits::CommitPlan;
use jj_testkit::commits::Timestamp;
use jj_testkit::ids::CommitId;
use jj_testkit::ids::ObjectId;
use jj_testkit::rebase::assert_abandoned_with_parent;
use jj_testkit::rebase::assert_in_rebased_map;
use jj_testkit::rebase::assert_rebased_onto;
use jj_testkit::rebase::AbandonMismatch;
use jj_testkit::rebase::RebaseMismatch;
use jj_testkit::rebase::RebasedMap;
use jj_testkit::transactions::commit_transactions;
use jj_testkit::transactions::TransactionAction;
use jj_testkit::tree::numbered_tree;
use jj_testkit::tree::MergedTreeId;

fn id<K>(byte: u8) -> ObjectId<K> {
    ObjectId::new(vec![byte])
}

fn commit(number: u8, change: u8, parents: Vec<CommitId>) -> Commit {
    let mut data = commit_with_tree(&id(0), MergedTreeId::Legacy(id(9)));
    data.parents = parents;
    data.change_id = id(change);
    Commit { id: id(number), data }
}

#[test]
fn commit_with_tree_is_fixed() {
    let data = commit_with_tree(&id(0), MergedTreeId::Merge(vec![id(4)]));
    assert_eq!(data.parents, vec![id(0)]);
    assert_eq!(data.predecessors, vec![]);
    assert_eq!(data.root_tree, MergedTreeId::Legacy(id(4)));
    assert_eq!(data.change_id, ObjectId::new(vec![0xab, 0xcd]));
    assert_eq!(data.description, "description");
    assert_eq!(data.author.name, "Some One");
    assert_eq!(data.author.email, "someone@example.com");
    assert_eq!(data.author.timestamp, Timestamp { millis: 0, tz_offset: 0 });
    assert_eq!(data.committer, data.author);
    assert_eq!(data.secure_sig, None);
}

#[test]
fn numbered_commit_is_exact() {
    let plan = numbered_commit(vec![id(1), id(2)], 5, 60);
    assert_eq!(plan.parents, vec![id(1), id(2)]);
    assert_eq!(plan.files, numbered_tree(5));
    assert_eq!(plan.description, "random commit 60");
    assert_ne!(plan.description, numbered_commit(vec![id(1)], 5, 6).description);
}

fn numbers_of(plan: &CommitPlan) -> (u32, u32) {
    let name = plan.files[0].path.as_internal_file_string();
    let tree_number = name.strip_prefix("file").unwrap().parse().unwrap();
    let number = plan.description.strip_prefix("random commit ").unwrap().parse().unwrap();
    (tree_number, number)
}

#[test]
fn random_commit_is_a_numbered_commit() {
    let plan = create_random_commit(&id(0));
    let (tree_number, number) = numbers_of(&plan);
    assert_eq!(plan, numbered_commit(vec![id(0)], tree_number, number));
}

#[test]
fn graph_builder_keeps_the_order_of_parents() {
    let mut graph = CommitGraphBuilder::new(id(0));
    assert_eq!(graph.initial_commit().parents, vec![id(0)]);
    let a = commit(1, 1, vec![id(0)]);
    let b = commit(2, 2, vec![id(0)]);
    let plan = graph.commit_with_parents(&[&b, &a]);
    assert_eq!(plan.parents, vec![id(2), id(1)]);
    let (tree_number, number) = numbers_of(&plan);
    assert_eq!(plan, numbered_commit(vec![id(2), id(1)], tree_number, number));
}

#[test]
fn rebased_map_last_entry_counts() {
    let mut rebased = RebasedMap::new();
    assert_eq!(rebased.get(&id(1)), None);
    rebased.insert(id(1), id(2));
    rebased.insert(id(3), id(4));
    rebased.insert(id(1), id(5));
    assert_eq!(rebased.get(&id(1)), Some(&id(5)));
    assert_eq!(rebased.get(&id(3)), Some(&id(4)));
    assert_eq!(rebased.get(&id(2)), None);
}

#[test]
fn commits_must_be_in_the_rebased_map() {
    let mut rebased = RebasedMap::new();
    rebased.insert(id(1), id(2));
    assert_eq!(assert_in_rebased_map(&rebased, &commit(1, 1, vec![])), Ok(id(2)));
    assert_eq!(
        assert_in_rebased_map(&rebased, &commit(0xfe, 1, vec![])),
        Err("Expected commit to have been rebased: fe".to_string())
    );
}

fn one_rebased(old: u8, new: u8) -> RebasedMap {
    let mut rebased = RebasedMap::new();
    rebased.insert(id(old), id(new));
    rebased
}

#[test]
fn rebased_commits_keep_their_change() {
    let rebased = one_rebased(1, 2);
    let old = commit(1, 7, vec![id(0)]);
    let parents = vec![id(4), id(5)];
    let onto = |new: Commit| assert_rebased_onto(&rebased, new, &old, &parents);
    assert_eq!(onto(commit(2, 7, vec![id(4), id(5)])), Ok(commit(2, 7, vec![id(4), id(5)])));
    assert_eq!(onto(commit(2, 7, vec![id(5), id(4)])), Err(RebaseMismatch::Parents));
    assert_eq!(onto(commit(2, 7, vec![id(4)])), Err(RebaseMismatch::Parents));
    assert_eq!(onto(commit(2, 8, vec![id(4), id(5)])), Err(RebaseMismatch::ChangeId));
    assert_eq!(onto(commit(3, 7, vec![id(4), id(5)])), Err(RebaseMismatch::Commit));
    let message = "Expected commit to have been rebased: 01".to_string();
    assert_eq!(
        assert_rebased_onto(&one_rebased(9, 2), commit(2, 7, vec![]), &old, &parents),
        Err(RebaseMismatch::NotRebased(message))
    );
}

#[test]
fn abandoned_commits_give_way_to_another_change() {
    let rebased = one_rebased(1, 2);
    let old = commit(1, 7, vec![id(0)]);
    let with_parent =
        |new: Commit, parent: u8| assert_abandoned_with_parent(&rebased, new, &old, &id(parent));
    assert_eq!(with_parent(commit(2, 8, vec![id(0)]), 2), Ok(commit(2, 8, vec![id(0)])));
    assert_eq!(with_parent(commit(2, 8, vec![id(0)]), 3), Err(AbandonMismatch::Parent));
    assert_eq!(with_parent(commit(3, 8, vec![id(0)]), 3), Err(AbandonMismatch::Commit));
    assert_eq!(with_parent(commit(2, 7, vec![id(0)]), 2), Err(AbandonMismatch::ChangeId));
    let message = "Expected commit to have been rebased: 01".to_string();
    assert_eq!(
        assert_abandoned_with_parent(&RebasedMap::new(), commit(2, 8, vec![]), &old, &id(2)),
        Err(AbandonMismatch::NotRebased(message))
    );
}

#[test]
fn rebased_and_abandoned_exclude_each_other() {
    let rebased = one_rebased(1, 2);
    let old = commit(1, 7, vec![id(0)]);
    let new = || commit(2, 7, vec![id(0)]);
    assert!(assert_rebased_onto(&rebased, new(), &old, &vec![id(0)]).is_ok());
    assert!(assert_abandoned_with_parent(&rebased, new(), &old, &id(2)).is_err());
}

#[test]
fn transactions_run_in_order() {
    let mut run = commit_transactions(2);
    assert_eq!(run.action(), TransactionAction::Commit(0));
    run.committed(id(1));
    assert_eq!(run.action(), TransactionAction::Pause(1));
    run.paused();
    assert_eq!(run.action(), TransactionAction::Commit(1));
    run.committed(id(2));
    assert_eq!(run.action(), TransactionAction::Pause(1));
    run.paused();
    assert_eq!(run.action(), TransactionAction::LoadHead);
    assert!(run.merged_in_order(&vec![id(1), id(2)]));
    assert!(!run.merged_in_order(&vec![id(2), id(1)]));
    assert!(!run.merged_in_order(&vec![id(1)]));
}
