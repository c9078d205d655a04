use taskstorage::inmemory::InMemoryStorage;
use taskstorage::storage::{StorageError, TaskStorage, TaskStorageTxn};
use taskstorage::taskmap::{TaskMap, taskmap_with};

fn pairs(ps: &[(&str, &str)]) -> Vec<(String, String)> {
    let mut v: Vec<(String, String)> = Vec::new();
    for (k, val) in ps {
        v.push((k.to_string(), val.to_string()));
    }
    v
}

#[test]
fn fresh_task_reads_absent_then_creates_empty() {
    let mut storage = InMemoryStorage::new();
    let mut t = storage.txn().unwrap();
    let u: u128 = 42;
    assert!(t.get_task(u).unwrap().is_none());
    assert!(t.create_task(u).unwrap());
    let m = t.get_task(u).unwrap().unwrap();
    assert_eq!(m.len(), 0);
    assert!(!t.create_task(u).unwrap());
    let m2 = t.get_task(u).unwrap().unwrap();
    assert_eq!(m2.len(), 0);
    assert!(m.same_as(&m2));
}

#[test]
fn set_task_then_get_task_returns_same_map() {
    let mut storage = InMemoryStorage::new();
    let mut t = storage.txn().unwrap();
    let u: u128 = 7;
    let m = taskmap_with(pairs(&[("title", "water the plants"), ("status", "pending")]));
    t.set_task(u, m.duplicate()).unwrap();
    let got = t.get_task(u).unwrap().unwrap();
    assert!(got.same_as(&m));
    assert_eq!(got.len(), 2);
    assert_eq!(got.get(&"title".to_string()).unwrap().as_str(), "water the plants");
    assert_eq!(got.get(&"status".to_string()).unwrap().as_str(), "pending");
    assert!(got.get(&"missing".to_string()).is_none());
}

#[test]
fn set_task_overwrites_whole_map() {
    let mut storage = InMemoryStorage::new();
    let mut t = storage.txn().unwrap();
    let u: u128 = 3;
    t.set_task(u, taskmap_with(pairs(&[("a", "1"), ("b", "2")]))).unwrap();
    let m = taskmap_with(pairs(&[("c", "3")]));
    t.set_task(u, m.duplicate()).unwrap();
    let got = t.get_task(u).unwrap().unwrap();
    assert!(got.same_as(&m));
    assert!(got.get(&"a".to_string()).is_none());
}

#[test]
fn delete_task_removes_and_reports() {
    let mut storage = InMemoryStorage::new();
    let mut t = storage.txn().unwrap();
    let u: u128 = 9;
    assert!(!t.delete_task(u).unwrap());
    assert!(t.create_task(u).unwrap());
    assert!(t.delete_task(u).unwrap());
    assert!(t.get_task(u).unwrap().is_none());
    assert!(!t.delete_task(u).unwrap());
}

#[test]
fn all_task_uuids_after_create_and_delete() {
    let mut storage = InMemoryStorage::new();
    let mut t = storage.txn().unwrap();
    let (a, b, c): (u128, u128, u128) = (1, 2, 3);
    assert!(t.create_task(a).unwrap());
    assert!(t.create_task(b).unwrap());
    assert!(t.create_task(c).unwrap());
    assert!(t.delete_task(b).unwrap());
    let uuids = t.all_task_uuids().unwrap();
    assert_eq!(uuids.len(), 2);
    assert!(uuids.contains(&a));
    assert!(uuids.contains(&c));
    assert!(!uuids.contains(&b));
}

#[test]
fn all_tasks_returns_every_pair() {
    let mut storage = InMemoryStorage::new();
    let mut t = storage.txn().unwrap();
    let ma = taskmap_with(pairs(&[("k", "va")]));
    let mb = taskmap_with(pairs(&[("k", "vb")]));
    t.set_task(10, ma.duplicate()).unwrap();
    t.set_task(20, mb.duplicate()).unwrap();
    let all = t.all_tasks().unwrap();
    assert_eq!(all.len(), 2);
    for (uuid, m) in &all {
        if *uuid == 10 {
            assert!(m.same_as(&ma));
        } else {
            assert_eq!(*uuid, 20);
            assert!(m.same_as(&mb));
        }
    }
}

#[test]
fn taskmap_with_later_pair_wins() {
    let m = taskmap_with(pairs(&[("k", "old"), ("k", "new")]));
    assert_eq!(m.len(), 1);
    assert_eq!(m.get(&"k".to_string()).unwrap().as_str(), "new");
}

#[test]
fn taskmap_same_as_discriminates() {
    let m1 = taskmap_with(pairs(&[("a", "1"), ("b", "2")]));
    let m2 = taskmap_with(pairs(&[("b", "2"), ("a", "1")]));
    let m3 = taskmap_with(pairs(&[("a", "1"), ("b", "other")]));
    let m4 = taskmap_with(pairs(&[("a", "1")]));
    assert!(m1.same_as(&m2));
    assert!(!m1.same_as(&m3));
    assert!(!m1.same_as(&m4));
    assert!(!m4.same_as(&m1));
    assert!(TaskMap::new().same_as(&TaskMap::new()));
}

#[test]
fn remove_from_working_set_rejects_bad_index() {
    let mut storage = InMemoryStorage::new();
    let mut t = storage.txn().unwrap();
    assert_eq!(t.remove_from_working_set(0).unwrap_err(), StorageError::IndexOutOfRange);
    assert_eq!(t.remove_from_working_set(1).unwrap_err(), StorageError::IndexOutOfRange);
    assert_eq!(t.add_to_working_set(5).unwrap(), 1);
    assert!(t.remove_from_working_set(1).is_ok());
    assert_eq!(t.remove_from_working_set(2).unwrap_err(), StorageError::IndexOutOfRange);
}
