//! The in-memory reference backend.
//!
//! It keeps the whole store in ordinary owned values.  A transaction is an
//! independent copy of the committed snapshot: its mutations touch nothing
//! shared, committing installs the copy wholesale, and dropping the
//! transaction discards every one of its effects.  No method of this
//! backend can meet a backend failure, so each promises success outright;
//! only a working-set removal with a bad index is refused.

use vstd::prelude::*;
use crate::assoc::{
    assoc_view, assoc_distinct_keys, lemma_assoc_view_contains, lemma_assoc_view_index,
    lemma_assoc_view_push, lemma_assoc_view_update, lemma_assoc_view_remove,
    lemma_assoc_view_congruent,
};
use crate::operation::{Operation, duplicate_operations};
use crate::state::{
    StorageState, ws_wf, initial_state, create_task_spec, set_task_spec,
    delete_task_spec, set_base_version_spec, add_operation_spec, set_operations_spec,
    add_to_working_set_spec, ws_index_valid, remove_from_working_set_spec,
    clear_working_set_spec,
};
use crate::storage::{StorageError, TaskStorage, TaskStorageTxn};
use crate::taskmap::TaskMap;

verus! {

/// A transaction over the in-memory store: a private copy of the snapshot.
pub struct InMemoryTxn {
    tasks: Vec<(u128, TaskMap)>,
    base_version: u64,
    operations: Vec<Operation>,
    working_set: Vec<Option<u128>>,
}

impl InMemoryTxn {
    /// The snapshot this copy holds.
    pub closed spec fn state_of(&self) -> StorageState {
        StorageState {
            tasks: assoc_view(self.tasks@),
            base_version: self.base_version,
            operations: self.operations@,
            working_set: self.working_set@,
        }
    }

    /// Task identifiers distinct, every stored bag well formed, and the
    /// working set keeping its sentinel and its distinct live entries.
    pub closed spec fn inv(&self) -> bool {
        &&& assoc_distinct_keys(self.tasks@)
        &&& forall|i: int| 0 <= i < self.tasks@.len() ==> (#[trigger] self.tasks@[i]).1.wf()
        &&& ws_wf(self.working_set@)
    }

    /// An empty snapshot: the state of a freshly initialized storage.
    fn empty() -> (r: InMemoryTxn)
        ensures
            r.inv(),
            r.state_of() == initial_state(),
    {
        let mut working_set: Vec<Option<u128>> = Vec::new();
        working_set.push(Option::None);
        let r = InMemoryTxn {
            tasks: Vec::new(),
            base_version: 0,
            operations: Vec::new(),
            working_set,
        };
        proof {
            assert(r.working_set@ =~= seq![Option::<u128>::None]);
            assert(r.state_of() =~= initial_state());
        }
        r
    }

    /// Where the task sits in the table, if anywhere.
    fn find_task(&self, uuid: u128) -> (r: Option<usize>)
        ensures
            match r {
                Option::Some(i) => i < self.tasks@.len() && self.tasks@[i as int].0 == uuid,
                Option::None => forall|j: int|
                    0 <= j < self.tasks@.len() ==> (#[trigger] self.tasks@[j]).0 != uuid,
            },
    {
        let n = self.tasks.len();
        let mut i: usize = 0;
        while i < n
            invariant
                n == self.tasks@.len(),
                i <= n,
                forall|j: int| 0 <= j < i ==> (#[trigger] self.tasks@[j]).0 != uuid,
            decreases n - i,
        {
            if self.tasks[i].0 == uuid {
                return Option::Some(i);
            }
            i = i + 1;
        }
        Option::None
    }

    /// An equal, independently owned copy of the whole snapshot.
    fn duplicate(&self) -> (r: InMemoryTxn)
        requires
            self.inv(),
        ensures
            r.inv(),
            r.state_of() == self.state_of(),
    {
        let n = self.tasks.len();
        let mut tasks: Vec<(u128, TaskMap)> = Vec::new();
        let mut i: usize = 0;
        while i < n
            invariant
                self.inv(),
                n == self.tasks@.len(),
                i <= n,
                tasks@.len() == i,
                forall|j: int| 0 <= j < i ==> (#[trigger] tasks@[j]).0 == self.tasks@[j].0
                    && tasks@[j].1@ == self.tasks@[j].1@ && tasks@[j].1.wf(),
            decreases n - i,
        {
            tasks.push((self.tasks[i].0, self.tasks[i].1.duplicate()));
            i = i + 1;
        }
        proof {
            lemma_assoc_view_congruent(tasks@, self.tasks@);
        }
        let m = self.working_set.len();
        let mut working_set: Vec<Option<u128>> = Vec::new();
        let mut k: usize = 0;
        while k < m
            invariant
                m == self.working_set@.len(),
                k <= m,
                working_set@ == self.working_set@.subrange(0, k as int),
            decreases m - k,
        {
            working_set.push(self.working_set[k]);
            proof {
                assert(working_set@ =~= self.working_set@.subrange(0, k + 1 as int));
            }
            k = k + 1;
        }
        proof {
            assert(working_set@ =~= self.working_set@);
        }
        let r = InMemoryTxn {
            tasks,
            base_version: self.base_version,
            operations: duplicate_operations(&self.operations),
            working_set,
        };
        proof {
            assert(r.state_of() =~= self.state_of());
        }
        r
    }
}

impl TaskStorageTxn for InMemoryTxn {
    closed spec fn state(&self) -> StorageState {
        self.state_of()
    }

    closed spec fn wf(&self) -> bool {
        self.inv()
    }

    proof fn wf_state(&self) {
    }

    fn get_task(&mut self, uuid: u128) -> (r: Result<Option<TaskMap>, StorageError>)
        ensures
            r is Ok,
    {
        proof {
            lemma_assoc_view_contains(self.tasks@, uuid);
        }
        match self.find_task(uuid) {
            Option::Some(i) => {
                proof {
                    lemma_assoc_view_index(self.tasks@, i as int);
                }
                Result::Ok(Option::Some(self.tasks[i].1.duplicate()))
            },
            Option::None => Result::Ok(Option::None),
        }
    }

    fn create_task(&mut self, uuid: u128) -> (r: Result<bool, StorageError>)
        ensures
            r is Ok,
    {
        proof {
            lemma_assoc_view_contains(self.tasks@, uuid);
        }
        match self.find_task(uuid) {
            Option::Some(_) => Result::Ok(false),
            Option::None => {
                let bag = TaskMap::new();
                proof {
                    lemma_assoc_view_push(self.tasks@, (uuid, bag));
                }
                let ghost s = self.tasks@;
                self.tasks.push((uuid, bag));
                proof {
                    assert(assoc_distinct_keys(self.tasks@)) by {
                        assert(forall|j: int| 0 <= j < s.len() ==> (#[trigger] self.tasks@[j]) == s[j]);
                    };
                    assert(self.state_of() =~= create_task_spec(old(self).state_of(), uuid).0);
                }
                Result::Ok(true)
            },
        }
    }

    fn set_task(&mut self, uuid: u128, task: TaskMap) -> (r: Result<(), StorageError>)
        ensures
            r is Ok,
    {
        match self.find_task(uuid) {
            Option::Some(i) => {
                proof {
                    lemma_assoc_view_update(self.tasks@, i as int, (uuid, task));
                }
                let ghost s = self.tasks@;
                self.tasks.set(i, (uuid, task));
                proof {
                    assert(assoc_distinct_keys(self.tasks@)) by {
                        assert(forall|j: int| 0 <= j < s.len() && j != i ==> (#[trigger] self.tasks@[j]) == s[j]);
                        assert(self.tasks@[i as int].0 == s[i as int].0);
                    };
                    assert(self.state_of() =~= set_task_spec(old(self).state_of(), uuid, task@));
                }
            },
            Option::None => {
                proof {
                    lemma_assoc_view_push(self.tasks@, (uuid, task));
                }
                let ghost s = self.tasks@;
                self.tasks.push((uuid, task));
                proof {
                    assert(assoc_distinct_keys(self.tasks@)) by {
                        assert(forall|j: int| 0 <= j < s.len() ==> (#[trigger] self.tasks@[j]) == s[j]);
                    };
                    assert(self.state_of() =~= set_task_spec(old(self).state_of(), uuid, task@));
                }
            },
        }
        Result::Ok(())
    }

    fn delete_task(&mut self, uuid: u128) -> (r: Result<bool, StorageError>)
        ensures
            r is Ok,
    {
        proof {
            lemma_assoc_view_contains(self.tasks@, uuid);
        }
        match self.find_task(uuid) {
            Option::Some(i) => {
                proof {
                    lemma_assoc_view_index(self.tasks@, i as int);
                    lemma_assoc_view_remove(self.tasks@, i as int);
                }
                let ghost s = self.tasks@;
                self.tasks.remove(i);
                proof {
                    assert(self.tasks@ =~= s.remove(i as int));
                    assert forall|a: int, b: int|
                        0 <= a < b < self.tasks@.len() implies (#[trigger] self.tasks@[a]).0
                        != (#[trigger] self.tasks@[b]).0 by {
                        let a0: int = if a < i { a } else { a + 1 };
                        let b0: int = if b < i { b } else { b + 1 };
                        assert(self.tasks@[a] == s[a0]);
                        assert(self.tasks@[b] == s[b0]);
                    };
                    assert(forall|j: int| 0 <= j < self.tasks@.len() ==> (#[trigger] self.tasks@[j]).1
                        == if j < i { s[j].1 } else { s[j + 1].1 });
                    assert(self.state_of() =~= delete_task_spec(old(self).state_of(), uuid).0);
                }
                Result::Ok(true)
            },
            Option::None => Result::Ok(false),
        }
    }

    fn all_tasks(&mut self) -> (r: Result<Vec<(u128, TaskMap)>, StorageError>)
        ensures
            r is Ok,
    {
        let n = self.tasks.len();
        let mut out: Vec<(u128, TaskMap)> = Vec::new();
        let mut i: usize = 0;
        while i < n
            invariant
                self.inv(),
                n == self.tasks@.len(),
                i <= n,
                out@.len() == i,
                forall|j: int| 0 <= j < i ==> (#[trigger] out@[j]).0 == self.tasks@[j].0
                    && out@[j].1@ == self.tasks@[j].1@ && out@[j].1.wf(),
            decreases n - i,
        {
            out.push((self.tasks[i].0, self.tasks[i].1.duplicate()));
            i = i + 1;
        }
        proof {
            lemma_assoc_view_congruent(out@, self.tasks@);
        }
        Result::Ok(out)
    }

    fn all_task_uuids(&mut self) -> (r: Result<Vec<u128>, StorageError>)
        ensures
            r is Ok,
    {
        let n = self.tasks.len();
        let mut out: Vec<u128> = Vec::new();
        let mut i: usize = 0;
        while i < n
            invariant
                self.inv(),
                n == self.tasks@.len(),
                i <= n,
                out@.len() == i,
                forall|j: int| 0 <= j < i ==> (#[trigger] out@[j]) == self.tasks@[j].0,
            decreases n - i,
        {
            out.push(self.tasks[i].0);
            i = i + 1;
        }
        proof {
            assert(out@.to_set() =~= self.state_of().tasks.dom()) by {
                assert forall|k: u128| out@.to_set().contains(k)
                    implies self.state_of().tasks.dom().contains(k) by {
                    let j = choose|j: int| 0 <= j < out@.len() && out@[j] == k;
                    lemma_assoc_view_index(self.tasks@, j);
                };
                assert forall|k: u128| self.state_of().tasks.dom().contains(k)
                    implies out@.to_set().contains(k) by {
                    lemma_assoc_view_contains(self.tasks@, k);
                    let j = choose|j: int| 0 <= j < self.tasks@.len()
                        && (#[trigger] self.tasks@[j]).0@ == k;
                    assert(out@[j] == k);
                };
            };
        }
        Result::Ok(out)
    }

    fn base_version(&mut self) -> (r: Result<u64, StorageError>)
        ensures
            r is Ok,
    {
        Result::Ok(self.base_version)
    }

    fn set_base_version(&mut self, version: u64) -> (r: Result<(), StorageError>)
        ensures
            r is Ok,
    {
        self.base_version = version;
        proof {
            assert(self.state_of() =~= set_base_version_spec(old(self).state_of(), version));
        }
        Result::Ok(())
    }

    fn operations(&mut self) -> (r: Result<Vec<Operation>, StorageError>)
        ensures
            r is Ok,
    {
        Result::Ok(duplicate_operations(&self.operations))
    }

    fn add_operation(&mut self, op: Operation) -> (r: Result<(), StorageError>)
        ensures
            r is Ok,
    {
        self.operations.push(op);
        proof {
            assert(self.state_of() =~= add_operation_spec(old(self).state_of(), op));
        }
        Result::Ok(())
    }

    fn set_operations(&mut self, ops: Vec<Operation>) -> (r: Result<(), StorageError>)
        ensures
            r is Ok,
    {
        self.operations = ops;
        proof {
            assert(self.state_of() =~= set_operations_spec(old(self).state_of(), ops@));
        }
        Result::Ok(())
    }

    fn get_working_set(&mut self) -> (r: Result<Vec<Option<u128>>, StorageError>)
        ensures
            r is Ok,
    {
        let m = self.working_set.len();
        let mut out: Vec<Option<u128>> = Vec::new();
        let mut k: usize = 0;
        while k < m
            invariant
                m == self.working_set@.len(),
                k <= m,
                out@ == self.working_set@.subrange(0, k as int),
            decreases m - k,
        {
            out.push(self.working_set[k]);
            proof {
                assert(out@ =~= self.working_set@.subrange(0, k + 1 as int));
            }
            k = k + 1;
        }
        proof {
            assert(out@ =~= self.working_set@);
        }
        Result::Ok(out)
    }

    fn add_to_working_set(&mut self, uuid: u128) -> (r: Result<usize, StorageError>)
        ensures
            r is Ok,
    {
        let index = self.working_set.len();
        let ghost s = self.working_set@;
        self.working_set.push(Option::Some(uuid));
        proof {
            assert(ws_wf(self.working_set@)) by {
                assert(forall|j: int| 0 <= j < s.len() ==> (#[trigger] self.working_set@[j]) == s[j]);
                assert(forall|j: int| 0 <= j < s.len() ==> s[j] != Option::Some(uuid));
            };
            assert(self.state_of() =~= add_to_working_set_spec(old(self).state_of(), uuid).0);
        }
        Result::Ok(index)
    }

    fn remove_from_working_set(&mut self, index: usize) -> (r: Result<(), StorageError>)
        ensures
            ws_index_valid(old(self).state_of(), index as int) ==> r is Ok,
            !ws_index_valid(old(self).state_of(), index as int)
                ==> r == Result::<(), StorageError>::Err(StorageError::IndexOutOfRange),
    {
        if index == 0 || index >= self.working_set.len() {
            return Result::Err(StorageError::IndexOutOfRange);
        }
        let ghost s = self.working_set@;
        self.working_set.set(index, Option::None);
        proof {
            assert(ws_wf(self.working_set@)) by {
                assert(forall|j: int| 0 <= j < s.len() && j != index
                    ==> (#[trigger] self.working_set@[j]) == s[j]);
            };
            assert(self.state_of() =~= remove_from_working_set_spec(old(self).state_of(), index as int));
        }
        Result::Ok(())
    }

    fn clear_working_set(&mut self) -> (r: Result<(), StorageError>)
        ensures
            r is Ok,
    {
        let mut working_set: Vec<Option<u128>> = Vec::new();
        working_set.push(Option::None);
        self.working_set = working_set;
        proof {
            assert(self.working_set@ =~= seq![Option::<u128>::None]);
            assert(self.state_of() =~= clear_working_set_spec(old(self).state_of()));
        }
        Result::Ok(())
    }
}

/// Task storage kept entirely in memory, with no durability: the reference
/// backend for exercising the contract.
pub struct InMemoryStorage {
    data: InMemoryTxn,
}

impl InMemoryStorage {
    /// A freshly initialized store: no tasks, version 0, an empty log, a
    /// working set holding only the sentinel.
    pub fn new() -> (r: InMemoryStorage)
        ensures
            r.wf(),
            r.committed() == initial_state(),
    {
        InMemoryStorage { data: InMemoryTxn::empty() }
    }
}

impl TaskStorage for InMemoryStorage {
    type Txn = InMemoryTxn;

    closed spec fn committed(&self) -> StorageState {
        self.data.state_of()
    }

    closed spec fn wf(&self) -> bool {
        self.data.inv()
    }

    fn txn(&mut self) -> (r: Result<InMemoryTxn, StorageError>)
        ensures
            r is Ok,
    {
        Result::Ok(self.data.duplicate())
    }

    fn commit(&mut self, txn: InMemoryTxn) -> (r: Result<(), StorageError>)
        ensures
            r is Ok,
    {
        self.data = txn;
        Result::Ok(())
    }
}

} // verus!
