//! The mathematical model of a storage snapshot.
//!
//! A snapshot holds the task table, the base version, the operation log and
//! the working set.  Every transaction method is specified as a pure
//! function from snapshot to snapshot here, and the laws of the layer are
//! proved over these functions.

use vstd::prelude::*;
use crate::operation::Operation;

verus! {

/// One consistent snapshot of everything the storage holds.
#[verifier::ext_equal]
pub struct StorageState {
    /// Every stored task's property bag, keyed by task identifier.
    pub tasks: Map<u128, Map<Seq<char>, Seq<char>>>,
    /// The last version known to agree with the remote server.
    pub base_version: u64,
    /// Outstanding operations, oldest first.
    pub operations: Seq<Operation>,
    /// The sparse index from short numbers to task identifiers;
    /// position 0 is the reserved empty sentinel.
    pub working_set: Seq<Option<u128>>,
}

/// The working set always keeps its sentinel at position 0, and no two live
/// positions name the same task.
pub open spec fn ws_wf(ws: Seq<Option<u128>>) -> bool {
    &&& ws.len() >= 1
    &&& ws[0] is None
    &&& forall|i: int, j: int|
        0 <= i < j < ws.len() && (#[trigger] ws[i]) is Some ==> ws[i] != #[trigger] ws[j]
}

/// A snapshot the storage may actually hold.
pub open spec fn state_wf(s: StorageState) -> bool {
    ws_wf(s.working_set)
}

/// The snapshot of a freshly initialized storage: no tasks, version 0, an
/// empty log, and a working set holding only the sentinel.
pub open spec fn initial_state() -> StorageState {
    StorageState {
        tasks: Map::empty(),
        base_version: 0,
        operations: Seq::empty(),
        working_set: seq![Option::None],
    }
}

/// What `get_task` returns: the stored bag, or absent.
pub open spec fn get_task_spec(s: StorageState, uuid: u128) -> Option<Map<Seq<char>, Seq<char>>> {
    if s.tasks.contains_key(uuid) {
        Option::Some(s.tasks[uuid])
    } else {
        Option::None
    }
}

/// What `create_task` does: insert an empty bag only if absent; the flag
/// says whether anything was inserted.
pub open spec fn create_task_spec(s: StorageState, uuid: u128) -> (StorageState, bool) {
    if s.tasks.contains_key(uuid) {
        (s, false)
    } else {
        (StorageState { tasks: s.tasks.insert(uuid, Map::empty()), ..s }, true)
    }
}

/// What `set_task` does: store the bag under the identifier, creating or
/// replacing.
pub open spec fn set_task_spec(s: StorageState, uuid: u128, m: Map<Seq<char>, Seq<char>>) -> StorageState {
    StorageState { tasks: s.tasks.insert(uuid, m), ..s }
}

/// What `delete_task` does: drop the task if present; the flag says whether
/// anything was removed.
pub open spec fn delete_task_spec(s: StorageState, uuid: u128) -> (StorageState, bool) {
    if s.tasks.contains_key(uuid) {
        (StorageState { tasks: s.tasks.remove(uuid), ..s }, true)
    } else {
        (s, false)
    }
}

/// What `set_base_version` does.
pub open spec fn set_base_version_spec(s: StorageState, version: u64) -> StorageState {
    StorageState { base_version: version, ..s }
}

/// What `add_operation` does: append to the log.
pub open spec fn add_operation_spec(s: StorageState, op: Operation) -> StorageState {
    StorageState { operations: s.operations.push(op), ..s }
}

/// What `set_operations` does: replace the whole log.
pub open spec fn set_operations_spec(s: StorageState, ops: Seq<Operation>) -> StorageState {
    StorageState { operations: ops, ..s }
}

/// What `add_to_working_set` does: append one live entry; the index is one
/// past the highest index handed out so far.
pub open spec fn add_to_working_set_spec(s: StorageState, uuid: u128) -> (StorageState, int) {
    (
        StorageState { working_set: s.working_set.push(Option::Some(uuid)), ..s },
        s.working_set.len() as int,
    )
}

/// The indices `remove_from_working_set` accepts: not the sentinel, and not
/// past the highest index handed out.
pub open spec fn ws_index_valid(s: StorageState, index: int) -> bool {
    1 <= index < s.working_set.len()
}

/// What `remove_from_working_set` does on a valid index: leave a hole,
/// moving nothing.
pub open spec fn remove_from_working_set_spec(s: StorageState, index: int) -> StorageState {
    StorageState { working_set: s.working_set.update(index, Option::None), ..s }
}

/// What `clear_working_set` does: back to the sentinel alone.
pub open spec fn clear_working_set_spec(s: StorageState) -> StorageState {
    StorageState { working_set: seq![Option::None], ..s }
}

} // verus!
