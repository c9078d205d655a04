use taskstorage::inmemory::InMemoryStorage;
use taskstorage::operation::Operation;
use taskstorage::storage::{TaskStorage, TaskStorageTxn};
use taskstorage::taskmap::taskmap_with;

fn one_pair(k: &str, v: &str) -> Vec<(String, String)> {
    vec![(k.to_string(), v.to_string())]
}

#[test]
fn discarded_transaction_leaves_no_trace() {
    let mut storage = InMemoryStorage::new();
    {
        let mut t = storage.txn().unwrap();
        t.create_task(1).unwrap();
        t.set_task(2, taskmap_with(one_pair("k", "v"))).unwrap();
        t.add_operation(Operation::Create { uuid: 1 }).unwrap();
        t.add_to_working_set(1).unwrap();
        t.set_base_version(9).unwrap();
        // dropped here without commit
    }
    let mut t2 = storage.txn().unwrap();
    assert!(t2.get_task(1).unwrap().is_none());
    assert!(t2.get_task(2).unwrap().is_none());
    assert_eq!(t2.all_task_uuids().unwrap().len(), 0);
    assert_eq!(t2.operations().unwrap().len(), 0);
    assert_eq!(t2.get_working_set().unwrap(), vec![None]);
    assert_eq!(t2.base_version().unwrap(), 0);
}

#[test]
fn committed_transaction_is_fully_visible() {
    let mut storage = InMemoryStorage::new();
    let mut t = storage.txn().unwrap();
    t.create_task(1).unwrap();
    t.set_task(2, taskmap_with(one_pair("k", "v"))).unwrap();
    t.add_operation(Operation::Create { uuid: 1 }).unwrap();
    t.add_to_working_set(1).unwrap();
    t.set_base_version(9).unwrap();
    storage.commit(t).unwrap();

    let mut t2 = storage.txn().unwrap();
    assert!(t2.get_task(1).unwrap().is_some());
    let got = t2.get_task(2).unwrap().unwrap();
    assert!(got.same_as(&taskmap_with(one_pair("k", "v"))));
    let ops = t2.operations().unwrap();
    assert_eq!(ops.len(), 1);
    assert!(ops[0].same_as(&Operation::Create { uuid: 1 }));
    assert_eq!(t2.get_working_set().unwrap(), vec![None, Some(1)]);
    assert_eq!(t2.base_version().unwrap(), 9);
}

#[test]
fn round_trip_reproduces_task_set() {
    let mut storage = InMemoryStorage::new();
    let written: Vec<(u128, Vec<(String, String)>)> = vec![
        (5, one_pair("title", "five")),
        (6, one_pair("title", "six")),
        (7, Vec::new()),
    ];
    let mut t = storage.txn().unwrap();
    for (uuid, ps) in &written {
        t.set_task(*uuid, taskmap_with(ps.clone())).unwrap();
    }
    storage.commit(t).unwrap();

    let mut t2 = storage.txn().unwrap();
    let all = t2.all_tasks().unwrap();
    assert_eq!(all.len(), written.len());
    for (uuid, ps) in &written {
        let found = all.iter().find(|(u, _)| u == uuid).unwrap();
        assert!(found.1.same_as(&taskmap_with(ps.clone())));
    }
}

#[test]
fn later_transaction_sees_only_its_own_base() {
    let mut storage = InMemoryStorage::new();
    let mut t = storage.txn().unwrap();
    t.create_task(1).unwrap();
    storage.commit(t).unwrap();

    let mut t2 = storage.txn().unwrap();
    t2.delete_task(1).unwrap();
    t2.create_task(2).unwrap();
    // t2 is discarded: the first commit must still be intact
    drop(t2);

    let mut t3 = storage.txn().unwrap();
    assert!(t3.get_task(1).unwrap().is_some());
    assert!(t3.get_task(2).unwrap().is_none());
}
