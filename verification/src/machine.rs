//! How a script runs: one entry after the other on the stacks and the stack of
//! conditions, and when the run is accepted.

use vstd::prelude::*;
use crate::constants::{MAX_OPS_PER_SCRIPT, MAX_SCRIPT_SIZE};
use crate::opcodes::{item_size, Item, OpCodes};
use crate::semantics::exec_op;
use crate::stacks::{push_item, within_stack_limit, CondState, StackState};

verus! {

/// The state of a run: the two stacks and the open conditions.
pub struct Machine {
    pub stack: StackState,
    pub cond: CondState,
}

/// The state made of the given stacks and conditions.
pub open spec fn machine(stack: StackState, cond: CondState) -> Machine {
    Machine { stack, cond }
}

/// The state before the first entry.
pub open spec fn initial() -> Machine {
    Machine {
        stack: StackState { main: Seq::empty(), alt: Seq::empty() },
        cond: CondState::empty(),
    }
}

/// Puts new stacks beside unchanged conditions.
pub open spec fn with_stack(r: Option<StackState>, cond: CondState) -> Option<Machine> {
    match r {
        Some(s) => Some(Machine { stack: s, cond }),
        None => None,
    }
}

/// `OP_IF` (`negate` false) and `OP_NOTIF` (`negate` true). In an executing branch the
/// number on top is removed and decides the new condition; elsewhere the stacks stay
/// and a condition is opened that changes nothing.
pub open spec fn exec_if(negate: bool, m: Machine) -> Option<Machine> {
    if m.cond.size >= usize::MAX {
        None
    } else if !m.cond.all_true() {
        Some(Machine { stack: m.stack, cond: m.cond.push(true) })
    } else if m.stack.main.len() >= 1 && m.stack.main.last() is Num {
        Some(
            Machine {
                stack: StackState { main: m.stack.main.drop_last(), alt: m.stack.alt },
                cond: m.cond.push((m.stack.main.last()->Num_0 != 0) != negate),
            },
        )
    } else {
        None
    }
}

/// `OP_ELSE`: negates the innermost condition; fails where none is open.
pub open spec fn exec_else(m: Machine) -> Option<Machine> {
    if m.cond.size > 0 {
        Some(Machine { stack: m.stack, cond: m.cond.toggle() })
    } else {
        None
    }
}

/// `OP_ENDIF`: closes the innermost condition; fails where none is open.
pub open spec fn exec_endif(m: Machine) -> Option<Machine> {
    if m.cond.size > 0 {
        Some(Machine { stack: m.stack, cond: m.cond.pop() })
    } else {
        None
    }
}

/// The state after one entry, before the size of the stacks is checked.
pub open spec fn apply_entry(e: Item, m: Machine) -> Option<Machine> {
    match e {
        Item::Op(OpCodes::OP_IF) => exec_if(false, m),
        Item::Op(OpCodes::OP_NOTIF) => exec_if(true, m),
        Item::Op(OpCodes::OP_ELSE) => exec_else(m),
        Item::Op(OpCodes::OP_ENDIF) => exec_endif(m),
        Item::Op(op) => if m.cond.all_true() {
            with_stack(exec_op(op, m.stack), m.cond)
        } else {
            Some(m)
        },
        _ => if m.cond.all_true() {
            with_stack(push_item(m.stack, e), m.cond)
        } else {
            Some(m)
        },
    }
}

/// The state after one entry; `None` where the entry fails or leaves more items on the
/// stacks than allowed.
pub open spec fn step(e: Item, m: Machine) -> Option<Machine> {
    match apply_entry(e, m) {
        Some(next) => if within_stack_limit(next.stack) {
            Some(next)
        } else {
            None
        },
        None => None,
    }
}

/// The state after the first `n` entries of a script; `None` once an entry has failed.
pub open spec fn run(script: Seq<Item>, n: nat) -> Option<Machine>
    decreases n,
{
    if n == 0 {
        Some(initial())
    } else {
        match run(script, (n - 1) as nat) {
            Some(m) => step(script[n - 1], m),
            None => None,
        }
    }
}

/// The serialized size of the first `n` entries of a script.
pub open spec fn size_upto(script: Seq<Item>, n: nat) -> nat
    decreases n,
{
    if n == 0 {
        0
    } else {
        size_upto(script, (n - 1) as nat) + item_size(script[n - 1])
    }
}

/// The number of opcodes among the first `n` entries of a script.
pub open spec fn ops_upto(script: Seq<Item>, n: nat) -> nat
    decreases n,
{
    if n == 0 {
        0
    } else {
        ops_upto(script, (n - 1) as nat) + if script[n - 1] is Op {
            1nat
        } else {
            0nat
        }
    }
}

/// The serialized size of a script in bytes.
pub open spec fn script_size(script: Seq<Item>) -> nat {
    size_upto(script, script.len())
}

/// The number of opcodes in a script.
pub open spec fn op_count(script: Seq<Item>) -> nat {
    ops_upto(script, script.len())
}

/// A script is valid if neither its size nor its number of opcodes is over the limit.
pub open spec fn script_valid(script: Seq<Item>) -> bool {
    script_size(script) <= MAX_SCRIPT_SIZE && op_count(script) <= MAX_OPS_PER_SCRIPT
}

/// A finished run is accepted if no condition is left open and the top of the main
/// stack exists and is not the number zero.
pub open spec fn accepts(m: Machine) -> bool {
    m.cond.size == 0 && m.stack.main.len() > 0 && m.stack.main.last() != Item::Num(0)
}

/// The verdict on a script: it is valid, and it is empty or every entry succeeds and the
/// run is accepted.
pub open spec fn interprets(script: Seq<Item>) -> bool {
    script_valid(script) && (script.len() == 0 || match run(script, script.len()) {
        Some(m) => accepts(m),
        None => false,
    })
}

/// Size and opcode count only grow along a script.
pub proof fn lemma_counts_monotone(script: Seq<Item>, i: nat, n: nat)
    requires
        i <= n,
    ensures
        size_upto(script, i) <= size_upto(script, n),
        ops_upto(script, i) <= ops_upto(script, n),
    decreases n,
{
    if i < n {
        lemma_counts_monotone(script, i, (n - 1) as nat);
    }
}

/// A run that has failed stays failed.
pub proof fn lemma_run_stays_failed(script: Seq<Item>, i: nat, n: nat)
    requires
        i <= n,
        run(script, i) is None,
    ensures
        run(script, n) is None,
    decreases n,
{
    if i < n {
        lemma_run_stays_failed(script, i, (n - 1) as nat);
    }
}

} // verus!
