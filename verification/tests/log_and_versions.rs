use taskstorage::inmemory::InMemoryStorage;
use taskstorage::operation::Operation;
use taskstorage::storage::{TaskStorage, TaskStorageTxn};

#[test]
fn operation_log_keeps_insertion_order() {
    let mut storage = InMemoryStorage::new();
    let mut t = storage.txn().unwrap();
    let op1 = Operation::Create { uuid: 11 };
    let op2 = Operation::Update {
        uuid: 11,
        property: "status".to_string(),
        value: Some("done".to_string()),
    };
    assert_eq!(t.operations().unwrap().len(), 0);
    t.add_operation(op1.duplicate()).unwrap();
    t.add_operation(op2.duplicate()).unwrap();
    let ops = t.operations().unwrap();
    assert_eq!(ops.len(), 2);
    assert!(ops[0].same_as(&op1));
    assert!(ops[1].same_as(&op2));
    t.set_operations(Vec::new()).unwrap();
    assert_eq!(t.operations().unwrap().len(), 0);
}

#[test]
fn set_operations_replaces_whole_log() {
    let mut storage = InMemoryStorage::new();
    let mut t = storage.txn().unwrap();
    t.add_operation(Operation::Create { uuid: 1 }).unwrap();
    t.add_operation(Operation::Delete { uuid: 1 }).unwrap();
    let replacement = vec![Operation::Update {
        uuid: 2,
        property: "p".to_string(),
        value: None,
    }];
    t.set_operations(replacement).unwrap();
    let ops = t.operations().unwrap();
    assert_eq!(ops.len(), 1);
    assert!(ops[0].same_as(&Operation::Update {
        uuid: 2,
        property: "p".to_string(),
        value: None,
    }));
}

#[test]
fn operation_same_as_discriminates() {
    let create = Operation::Create { uuid: 4 };
    let delete = Operation::Delete { uuid: 4 };
    let up_set = Operation::Update {
        uuid: 4,
        property: "p".to_string(),
        value: Some("v".to_string()),
    };
    let up_unset = Operation::Update {
        uuid: 4,
        property: "p".to_string(),
        value: None,
    };
    assert!(create.same_as(&create.duplicate()));
    assert!(up_set.same_as(&up_set.duplicate()));
    assert!(up_unset.same_as(&up_unset.duplicate()));
    assert!(!create.same_as(&delete));
    assert!(!create.same_as(&Operation::Create { uuid: 5 }));
    assert!(!up_set.same_as(&up_unset));
    assert!(!up_set.same_as(&Operation::Update {
        uuid: 4,
        property: "p".to_string(),
        value: Some("other".to_string()),
    }));
}

#[test]
fn base_version_fresh_is_zero_and_reads_back() {
    let mut storage = InMemoryStorage::new();
    let mut t = storage.txn().unwrap();
    assert_eq!(t.base_version().unwrap(), 0);
    t.set_base_version(5).unwrap();
    assert_eq!(t.base_version().unwrap(), 5);
    t.set_base_version(2).unwrap();
    assert_eq!(t.base_version().unwrap(), 2);
}

#[test]
fn working_set_assigns_and_never_reuses_indices() {
    let mut storage = InMemoryStorage::new();
    let mut t = storage.txn().unwrap();
    let (x, y, z): (u128, u128, u128) = (100, 200, 300);
    let ws0 = t.get_working_set().unwrap();
    assert_eq!(ws0, vec![None]);
    assert_eq!(t.add_to_working_set(x).unwrap(), 1);
    assert_eq!(t.add_to_working_set(y).unwrap(), 2);
    t.remove_from_working_set(1).unwrap();
    let ws = t.get_working_set().unwrap();
    assert_eq!(ws, vec![None, None, Some(y)]);
    assert_eq!(t.add_to_working_set(z).unwrap(), 3);
    let ws2 = t.get_working_set().unwrap();
    assert_eq!(ws2, vec![None, None, Some(y), Some(z)]);
    t.clear_working_set().unwrap();
    assert_eq!(t.get_working_set().unwrap(), vec![None]);
}
