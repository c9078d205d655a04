//! A recorded intent to mutate task state.
//!
//! The storage layer stores, lists and replaces operations as an ordered
//! sequence; it never interprets them.  Replayed in order against an empty
//! task set, the log reproduces the task set the sync layer last agreed on.

use vstd::prelude::*;

verus! {

/// One mutation of the task set, kept for later synchronization.
#[derive(Debug)]
pub enum Operation {
    /// A task was brought into existence, with no properties yet.
    Create { uuid: u128 },
    /// A task was removed outright.
    Delete { uuid: u128 },
    /// One property of a task was set, or unset when `value` is `None`.
    Update { uuid: u128, property: String, value: Option<String> },
}

/// Whether two operations record the same mutation.
pub open spec fn op_equal(a: Operation, b: Operation) -> bool {
    match (a, b) {
        (Operation::Create { uuid: u1 }, Operation::Create { uuid: u2 }) => u1 == u2,
        (Operation::Delete { uuid: u1 }, Operation::Delete { uuid: u2 }) => u1 == u2,
        (
            Operation::Update { uuid: u1, property: p1, value: v1 },
            Operation::Update { uuid: u2, property: p2, value: v2 },
        ) => u1 == u2 && p1@ == p2@ && match (v1, v2) {
            (Option::None, Option::None) => true,
            (Option::Some(a1), Option::Some(b1)) => a1@ == b1@,
            _ => false,
        },
        _ => false,
    }
}

impl Operation {
    /// An equal, independently owned copy.
    pub fn duplicate(&self) -> (r: Operation)
        ensures
            r == *self,
    {
        match self {
            Operation::Create { uuid } => Operation::Create { uuid: *uuid },
            Operation::Delete { uuid } => Operation::Delete { uuid: *uuid },
            Operation::Update { uuid, property, value } => Operation::Update {
                uuid: *uuid,
                property: property.clone(),
                value: match value {
                    Option::Some(v) => Option::Some(v.clone()),
                    Option::None => Option::None,
                },
            },
        }
    }

    /// Whether this operation records the same mutation as `other`.
    pub fn same_as(&self, other: &Operation) -> (r: bool)
        ensures
            r == op_equal(*self, *other),
    {
        match (self, other) {
            (Operation::Create { uuid: u1 }, Operation::Create { uuid: u2 }) => *u1 == *u2,
            (Operation::Delete { uuid: u1 }, Operation::Delete { uuid: u2 }) => *u1 == *u2,
            (
                Operation::Update { uuid: u1, property: p1, value: v1 },
                Operation::Update { uuid: u2, property: p2, value: v2 },
            ) => *u1 == *u2 && *p1 == *p2 && match (v1, v2) {
                (Option::None, Option::None) => true,
                (Option::Some(a1), Option::Some(b1)) => *a1 == *b1,
                _ => false,
            },
            _ => false,
        }
    }
}

/// An equal, independently owned copy of an operation list.
pub fn duplicate_operations(ops: &Vec<Operation>) -> (r: Vec<Operation>)
    ensures
        r@ == ops@,
{
    let n = ops.len();
    let mut out: Vec<Operation> = Vec::new();
    let mut i: usize = 0;
    while i < n
        invariant
            n == ops@.len(),
            i <= n,
            out@ == ops@.subrange(0, i as int),
        decreases n - i,
    {
        out.push(ops[i].duplicate());
        proof {
            assert(out@ =~= ops@.subrange(0, i + 1 as int));
        }
        i = i + 1;
    }
    proof {
        assert(out@ =~= ops@);
    }
    out
}

} // verus!
