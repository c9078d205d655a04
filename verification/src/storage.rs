//! The storage contract: transactions and the factories that open them.
//!
//! All reads and writes of task data, the operation log, the working set
//! and the base version happen inside a transaction.  A transaction is a
//! private snapshot: nothing it does is visible elsewhere until the storage
//! commits it, and a transaction that is dropped instead leaves the
//! committed state untouched.  Committing consumes the transaction, so no
//! transaction can be committed twice.
//!
//! Every backend promises the same thing: each method either performs
//! exactly the snapshot transition written in `crate::state` and reports
//! success, or fails (a backend error) and leaves the snapshot untouched.

use vstd::prelude::*;
use crate::assoc::{assoc_view, assoc_distinct_keys};
use crate::operation::Operation;
use crate::state::{
    StorageState, state_wf, get_task_spec, create_task_spec, set_task_spec, delete_task_spec,
    set_base_version_spec, add_operation_spec, set_operations_spec, add_to_working_set_spec,
    ws_index_valid, remove_from_working_set_spec, clear_working_set_spec,
};
use crate::taskmap::TaskMap;

verus! {

/// Why a storage call failed.
#[derive(Clone, Copy, Debug, PartialEq, Eq, Structural)]
pub enum StorageError {
    /// The backing medium could not be read or written.
    Backend,
    /// A working-set removal named the sentinel or an index never handed out.
    IndexOutOfRange,
}

/// A transaction: an isolated, atomic view of the storage.
///
/// Methods whose `ensures` leave the error case open may fail on backends
/// whose medium can fail; each failed call leaves the snapshot unchanged.
pub trait TaskStorageTxn: Sized {
    /// The snapshot this transaction would commit.
    spec fn state(&self) -> StorageState;

    /// The transaction's own well-formedness.
    spec fn wf(&self) -> bool;

    /// A transaction only ever holds a well-formed snapshot.
    proof fn wf_state(&self)
        requires
            self.wf(),
        ensures
            state_wf(self.state()),
    ;

    /// The task's property bag, or `None` if no such task is stored.
    fn get_task(&mut self, uuid: u128) -> (r: Result<Option<TaskMap>, StorageError>)
        requires
            old(self).wf(),
        ensures
            final(self).wf(),
            final(self).state() == old(self).state(),
            r matches Ok(o) ==> match o {
                Option::Some(m) => m.wf() && get_task_spec(old(self).state(), uuid)
                    == Option::Some(m@),
                Option::None => get_task_spec(old(self).state(), uuid) is None,
            },
    ;

    /// Store an empty property bag under `uuid` only if absent; true means
    /// it was inserted, false that the task already existed, untouched.
    fn create_task(&mut self, uuid: u128) -> (r: Result<bool, StorageError>)
        requires
            old(self).wf(),
        ensures
            final(self).wf(),
            r matches Ok(b) ==> b == create_task_spec(old(self).state(), uuid).1
                && final(self).state() == create_task_spec(old(self).state(), uuid).0,
            r matches Err(_) ==> final(self).state() == old(self).state(),
    ;

    /// Store `task` under `uuid`, creating or wholly replacing it.
    fn set_task(&mut self, uuid: u128, task: TaskMap) -> (r: Result<(), StorageError>)
        requires
            old(self).wf(),
            task.wf(),
        ensures
            final(self).wf(),
            r matches Ok(_) ==> final(self).state() == set_task_spec(old(self).state(), uuid, task@),
            r matches Err(_) ==> final(self).state() == old(self).state(),
    ;

    /// Remove the task if present; true means something was removed.
    fn delete_task(&mut self, uuid: u128) -> (r: Result<bool, StorageError>)
        requires
            old(self).wf(),
        ensures
            final(self).wf(),
            r matches Ok(b) ==> b == delete_task_spec(old(self).state(), uuid).1
                && final(self).state() == delete_task_spec(old(self).state(), uuid).0,
            r matches Err(_) ==> final(self).state() == old(self).state(),
    ;

    /// Every stored task with its bag, in no particular order.
    fn all_tasks(&mut self) -> (r: Result<Vec<(u128, TaskMap)>, StorageError>)
        requires
            old(self).wf(),
        ensures
            final(self).wf(),
            final(self).state() == old(self).state(),
            r matches Ok(v) ==> {
                &&& assoc_distinct_keys(v@)
                &&& assoc_view(v@) == old(self).state().tasks
                &&& forall|i: int| 0 <= i < v@.len() ==> (#[trigger] v@[i]).1.wf()
            },
    ;

    /// Every stored task's identifier, in no particular order.
    fn all_task_uuids(&mut self) -> (r: Result<Vec<u128>, StorageError>)
        requires
            old(self).wf(),
        ensures
            final(self).wf(),
            final(self).state() == old(self).state(),
            r matches Ok(v) ==> v@.no_duplicates() && v@.to_set() == old(self).state().tasks.dom(),
    ;

    /// The last version synced from the server; 0 for a fresh storage.
    fn base_version(&mut self) -> (r: Result<u64, StorageError>)
        requires
            old(self).wf(),
        ensures
            final(self).wf(),
            final(self).state() == old(self).state(),
            r matches Ok(v) ==> v == old(self).state().base_version,
    ;

    /// Overwrite the stored version; monotonicity is the caller's duty.
    fn set_base_version(&mut self, version: u64) -> (r: Result<(), StorageError>)
        requires
            old(self).wf(),
        ensures
            final(self).wf(),
            r matches Ok(_) ==> final(self).state() == set_base_version_spec(old(self).state(), version),
            r matches Err(_) ==> final(self).state() == old(self).state(),
    ;

    /// The outstanding operations, oldest first.
    fn operations(&mut self) -> (r: Result<Vec<Operation>, StorageError>)
        requires
            old(self).wf(),
        ensures
            final(self).wf(),
            final(self).state() == old(self).state(),
            r matches Ok(v) ==> v@ == old(self).state().operations,
    ;

    /// Append one operation to the end of the log.
    fn add_operation(&mut self, op: Operation) -> (r: Result<(), StorageError>)
        requires
            old(self).wf(),
        ensures
            final(self).wf(),
            r matches Ok(_) ==> final(self).state() == add_operation_spec(old(self).state(), op),
            r matches Err(_) ==> final(self).state() == old(self).state(),
    ;

    /// Replace the whole log, as a sync does after the server accepts a batch.
    fn set_operations(&mut self, ops: Vec<Operation>) -> (r: Result<(), StorageError>)
        requires
            old(self).wf(),
        ensures
            final(self).wf(),
            r matches Ok(_) ==> final(self).state() == set_operations_spec(old(self).state(), ops@),
            r matches Err(_) ==> final(self).state() == old(self).state(),
    ;

    /// The whole sparse index; position 0 is always the empty sentinel.
    fn get_working_set(&mut self) -> (r: Result<Vec<Option<u128>>, StorageError>)
        requires
            old(self).wf(),
        ensures
            final(self).wf(),
            final(self).state() == old(self).state(),
            r matches Ok(v) ==> v@ == old(self).state().working_set,
    ;

    /// Give `uuid` the next never-used index and return it; an identifier
    /// may hold at most one live index at a time.
    fn add_to_working_set(&mut self, uuid: u128) -> (r: Result<usize, StorageError>)
        requires
            old(self).wf(),
            !old(self).state().working_set.contains(Option::Some(uuid)),
        ensures
            final(self).wf(),
            r matches Ok(i) ==> i as int == add_to_working_set_spec(old(self).state(), uuid).1
                && final(self).state() == add_to_working_set_spec(old(self).state(), uuid).0,
            r matches Err(_) ==> final(self).state() == old(self).state(),
    ;

    /// Empty the entry at `index`, leaving a hole; other indices keep their
    /// tasks.  The sentinel and indices never handed out are refused.
    fn remove_from_working_set(&mut self, index: usize) -> (r: Result<(), StorageError>)
        requires
            old(self).wf(),
        ensures
            final(self).wf(),
            !ws_index_valid(old(self).state(), index as int) ==> r matches Err(_),
            r matches Ok(_) ==> ws_index_valid(old(self).state(), index as int)
                && final(self).state() == remove_from_working_set_spec(old(self).state(), index as int),
            r matches Err(_) ==> final(self).state() == old(self).state(),
    ;

    /// Throw every entry away, keeping only the sentinel, ahead of a pass
    /// that will rebuild the set from scratch.
    fn clear_working_set(&mut self) -> (r: Result<(), StorageError>)
        requires
            old(self).wf(),
        ensures
            final(self).wf(),
            r matches Ok(_) ==> final(self).state() == clear_working_set_spec(old(self).state()),
            r matches Err(_) ==> final(self).state() == old(self).state(),
    ;
}

/// An object able to act as task storage: it owns the backing medium and
/// hands out transactions against it.
pub trait TaskStorage: Sized {
    /// The transaction type this backend opens.
    type Txn: TaskStorageTxn;

    /// The snapshot visible to the next transaction.
    spec fn committed(&self) -> StorageState;

    /// The storage's own well-formedness.
    spec fn wf(&self) -> bool;

    /// Begin a transaction over the committed snapshot.  Opening one
    /// changes nothing by itself.
    fn txn(&mut self) -> (r: Result<Self::Txn, StorageError>)
        requires
            old(self).wf(),
        ensures
            final(self).wf(),
            final(self).committed() == old(self).committed(),
            r matches Ok(t) ==> t.wf() && t.state() == old(self).committed(),
    ;

    /// Make everything the transaction did visible, atomically.  The
    /// transaction is consumed: committing twice cannot be written.  A
    /// transaction that is instead dropped leaves the committed snapshot
    /// exactly as it was.
    fn commit(&mut self, txn: Self::Txn) -> (r: Result<(), StorageError>)
        requires
            old(self).wf(),
            txn.wf(),
        ensures
            final(self).wf(),
            r matches Ok(_) ==> final(self).committed() == txn.state(),
            r matches Err(_) ==> final(self).committed() == old(self).committed(),
    ;
}

} // verus!
