//! The laws of the storage layer, proved over the snapshot model.
//!
//! Each law quantifies over snapshots and inputs; the transaction methods
//! are tied to the same snapshot transitions by their own contracts, so a
//! law about the transitions is a law about any conforming backend.

use vstd::prelude::*;
use crate::operation::Operation;
use crate::state::{
    StorageState, state_wf, ws_wf, initial_state, get_task_spec, create_task_spec,
    delete_task_spec, set_task_spec, add_operation_spec, set_operations_spec,
    add_to_working_set_spec, ws_index_valid, remove_from_working_set_spec,
    clear_working_set_spec, set_base_version_spec,
};

verus! {

/// An identifier never created reads as absent; creating it succeeds and
/// leaves an empty bag; creating it again reports it present and changes
/// nothing.
pub proof fn lemma_create_fresh_task(s: StorageState, u: u128)
    requires
        !s.tasks.contains_key(u),
    ensures
        get_task_spec(s, u) is None,
        create_task_spec(s, u).1,
        get_task_spec(create_task_spec(s, u).0, u) == Option::Some(Map::<Seq<char>, Seq<char>>::empty()),
        !create_task_spec(create_task_spec(s, u).0, u).1,
        create_task_spec(create_task_spec(s, u).0, u).0 == create_task_spec(s, u).0,
{
}

/// Whatever bag is set is exactly the bag read back.
pub proof fn lemma_set_then_get(s: StorageState, u: u128, m: Map<Seq<char>, Seq<char>>)
    ensures
        get_task_spec(set_task_spec(s, u, m), u) == Option::Some(m),
{
}

/// Deleting an existing task succeeds and leaves it absent; deleting a
/// nonexistent task reports so and changes nothing.
pub proof fn lemma_delete_task(s: StorageState, u: u128)
    ensures
        s.tasks.contains_key(u) ==> delete_task_spec(s, u).1
            && get_task_spec(delete_task_spec(s, u).0, u) is None,
        !s.tasks.contains_key(u) ==> !delete_task_spec(s, u).1 && delete_task_spec(s, u).0 == s,
{
}

/// After creating three distinct tasks and deleting the middle one, the
/// stored identifiers are exactly the other two.
pub proof fn lemma_uuids_after_create_and_delete(s: StorageState, a: u128, b: u128, c: u128)
    requires
        s.tasks.dom() == Set::<u128>::empty(),
        a != b,
        b != c,
        a != c,
    ensures
        delete_task_spec(
            create_task_spec(create_task_spec(create_task_spec(s, a).0, b).0, c).0,
            b,
        ).0.tasks.dom() == set![a, c],
{
    assert(!s.tasks.contains_key(a));
    let s3 = create_task_spec(create_task_spec(create_task_spec(s, a).0, b).0, c).0;
    assert(delete_task_spec(s3, b).0.tasks.dom() =~= set![a, c]);
}

/// Operations appended to an empty log read back as exactly that sequence,
/// in order; replacing the log with the empty sequence empties it.
pub proof fn lemma_operation_log(s: StorageState, op1: Operation, op2: Operation)
    requires
        s.operations == Seq::<Operation>::empty(),
    ensures
        add_operation_spec(add_operation_spec(s, op1), op2).operations == seq![op1, op2],
        set_operations_spec(add_operation_spec(add_operation_spec(s, op1), op2),
            Seq::<Operation>::empty()).operations == Seq::<Operation>::empty(),
{
    assert(add_operation_spec(add_operation_spec(s, op1), op2).operations =~= seq![op1, op2]);
}

/// Starting from an empty working set: the first two additions get indices
/// 1 and 2; removing index 1 leaves a hole and index 2 untouched; a third
/// addition gets index 3, never reusing the hole; clearing leaves only the
/// sentinel.
pub proof fn lemma_working_set(s: StorageState, x: u128, y: u128, z: u128)
    requires
        s.working_set == seq![Option::<u128>::None],
    ensures
        add_to_working_set_spec(s, x).1 == 1,
        add_to_working_set_spec(add_to_working_set_spec(s, x).0, y).1 == 2,
        remove_from_working_set_spec(
            add_to_working_set_spec(add_to_working_set_spec(s, x).0, y).0, 1,
        ).working_set == seq![Option::<u128>::None, Option::<u128>::None, Option::Some(y)],
        add_to_working_set_spec(remove_from_working_set_spec(
            add_to_working_set_spec(add_to_working_set_spec(s, x).0, y).0, 1,
        ), z).1 == 3,
        clear_working_set_spec(add_to_working_set_spec(remove_from_working_set_spec(
            add_to_working_set_spec(add_to_working_set_spec(s, x).0, y).0, 1,
        ), z).0).working_set == seq![Option::<u128>::None],
{
    let s2 = add_to_working_set_spec(add_to_working_set_spec(s, x).0, y).0;
    assert(remove_from_working_set_spec(s2, 1).working_set
        =~= seq![Option::<u128>::None, Option::<u128>::None, Option::Some(y)]);
}

/// A freshly initialized storage is well formed and reports version 0; a
/// stored version is read back exactly.
pub proof fn lemma_base_version(s: StorageState, v: u64)
    ensures
        state_wf(initial_state()),
        initial_state().base_version == 0,
        set_base_version_spec(s, v).base_version == v,
{
}

/// Writing a sequence of tasks one `set_task` at a time.
pub open spec fn write_tasks_spec(
    s: StorageState,
    ps: Seq<(u128, Map<Seq<char>, Seq<char>>)>,
) -> StorageState
    decreases ps.len(),
{
    if ps.len() == 0 {
        s
    } else {
        set_task_spec(write_tasks_spec(s, ps.drop_last()), ps.last().0, ps.last().1)
    }
}

/// Round trip: after writing any set of distinctly identified tasks, each
/// written identifier reads back exactly the bag written for it, and every
/// other identifier reads as it did before.
pub proof fn lemma_write_then_read(s: StorageState, ps: Seq<(u128, Map<Seq<char>, Seq<char>>)>)
    requires
        forall|i: int, j: int|
            0 <= i < j < ps.len() ==> (#[trigger] ps[i]).0 != (#[trigger] ps[j]).0,
    ensures
        forall|i: int| 0 <= i < ps.len() ==> get_task_spec(write_tasks_spec(s, ps), (#[trigger] ps[i]).0)
            == Option::Some(ps[i].1),
        forall|u: u128| (forall|i: int| 0 <= i < ps.len() ==> (#[trigger] ps[i]).0 != u)
            ==> #[trigger] get_task_spec(write_tasks_spec(s, ps), u) == get_task_spec(s, u),
    decreases ps.len(),
{
    if ps.len() > 0 {
        let head = ps.drop_last();
        assert(forall|i: int| 0 <= i < head.len() ==> (#[trigger] head[i]) == ps[i]);
        lemma_write_then_read(s, head);
        let last = ps.last();
        assert(last == ps[ps.len() - 1]);
        assert forall|i: int| 0 <= i < ps.len() implies get_task_spec(
            write_tasks_spec(s, ps), (#[trigger] ps[i]).0) == Option::Some(ps[i].1) by {
            if i < ps.len() - 1 {
                assert(head[i] == ps[i]);
                assert(ps[i].0 != last.0);
                assert(get_task_spec(write_tasks_spec(s, head), head[i].0)
                    == Option::Some(head[i].1));
            }
        };
        assert forall|u: u128| (forall|i: int| 0 <= i < ps.len() ==> (#[trigger] ps[i]).0 != u)
            implies #[trigger] get_task_spec(write_tasks_spec(s, ps), u) == get_task_spec(s, u) by {
            assert(forall|i: int| 0 <= i < head.len() ==> (#[trigger] head[i]).0 != u);
            assert(ps[ps.len() - 1].0 != u);
            assert(get_task_spec(write_tasks_spec(s, head), u) == get_task_spec(s, u));
        };
    }
}

/// Every transition keeps the working set well formed, so any sequence of
/// them starting from a well-formed snapshot stays well formed.
pub proof fn lemma_transitions_preserve_wf(
    s: StorageState,
    u: u128,
    m: Map<Seq<char>, Seq<char>>,
    op: Operation,
    ops: Seq<Operation>,
    v: u64,
    index: int,
)
    requires
        state_wf(s),
    ensures
        state_wf(create_task_spec(s, u).0),
        state_wf(set_task_spec(s, u, m)),
        state_wf(delete_task_spec(s, u).0),
        state_wf(set_base_version_spec(s, v)),
        state_wf(add_operation_spec(s, op)),
        state_wf(set_operations_spec(s, ops)),
        !s.working_set.contains(Option::Some(u)) ==> state_wf(add_to_working_set_spec(s, u).0),
        ws_index_valid(s, index) ==> state_wf(remove_from_working_set_spec(s, index)),
        state_wf(clear_working_set_spec(s)),
{
    let ws = s.working_set;
    if !ws.contains(Option::Some(u)) {
        let ws2 = add_to_working_set_spec(s, u).0.working_set;
        assert forall|i: int, j: int|
            0 <= i < j < ws2.len() && (#[trigger] ws2[i]) is Some implies ws2[i] != #[trigger] ws2[j] by {
            if j < ws.len() {
                assert(ws2[i] == ws[i] && ws2[j] == ws[j]);
            } else {
                assert(ws2[j] == Option::Some(u));
                assert(ws[i] != Option::Some(u));
            }
        };
    }
    if ws_index_valid(s, index) {
        let ws3 = remove_from_working_set_spec(s, index).working_set;
        assert forall|i: int, j: int|
            0 <= i < j < ws3.len() && (#[trigger] ws3[i]) is Some implies ws3[i] != #[trigger] ws3[j] by {
            assert(i != index ==> ws3[i] == ws[i]);
            assert(j != index ==> ws3[j] == ws[j]);
        };
    }
}

} // verus!
