//! The handlers of the opcodes. Each one changes the stacks as `exec_op` says and
//! reports whether the opcode succeeded.

use vstd::prelude::*;
use vstd::string::StringExecFns;
use vstd::utf8::{
    encode_utf8, encode_utf8_decode_utf8, encode_utf8_valid_utf8,
    is_char_boundary_iff_not_is_continuation_byte, is_char_boundary_start_end_of_seq,
};
use crate::addresses::{construct_address, construct_address_temp, construct_address_v0};
use crate::constants::{MAX_PUB_KEYS_PER_MULTISIG, MAX_SCRIPT_ITEM_SIZE};
use crate::crypto::{digest, ed25519_verify, hex_encode, PublicKey, Signature};
use crate::opcodes::{text_len, text_size, Item, OpCodes, StackEntry};
use crate::machine::{exec_if, machine, step, Machine};
use crate::semantics::{
    all_columns, all_signatures_match, binary_value, checksig_top, chosen_keys, first_true,
    handler_post, is_binary_op, is_unary_op, keys_of, lemma_first_true_at, lemma_table_matches,
    multisig_frame, sigs_of, table_matches, text_slice, truth, unary_value, verdict_table,
};
use crate::stacks::{ConditionStack, Stack};

verus! {

/// 1 for true, 0 for false.
pub fn truth_value(b: bool) -> (n: usize)
    ensures
        n == truth(b),
{
    if b {
        1
    } else {
        0
    }
}

/// The number `below` places under the top of the main stack, where that item is a
/// number.
pub fn top_num(stack: &Stack, below: usize) -> (r: Option<usize>)
    ensures
        r is Some == (below < stack@.main.len() && stack@.main[stack@.main.len() - 1
            - below] is Num),
        r is Some ==> r->0 == stack@.main[stack@.main.len() - 1 - below]->Num_0,
{
    if below >= stack.depth() {
        return None;
    }
    match stack.peek(below) {
        StackEntry::Num(n) => Some(n),
        _ => None,
    }
}

/// Computes a unary opcode on a number; `None` where it fails, and for any other opcode.
pub fn eval_unary(op: OpCodes, a: usize) -> (r: Option<usize>)
    ensures
        r == unary_value(op, a),
{
    match op {
        OpCodes::OP_1ADD => a.checked_add(1),
        OpCodes::OP_1SUB => a.checked_sub(1),
        OpCodes::OP_2MUL => a.checked_mul(2),
        OpCodes::OP_2DIV => Some(a / 2),
        OpCodes::OP_NOT => Some(truth_value(a == 0)),
        OpCodes::OP_0NOTEQUAL => Some(truth_value(a != 0)),
        OpCodes::OP_INVERT => Some(!a),
        _ => None,
    }
}

/// Computes a binary opcode on two numbers; `None` where it fails, and for any other
/// opcode.
pub fn eval_binary(op: OpCodes, a: usize, b: usize) -> (r: Option<usize>)
    ensures
        r == binary_value(op, a, b),
{
    match op {
        OpCodes::OP_AND => Some(a & b),
        OpCodes::OP_OR => Some(a | b),
        OpCodes::OP_XOR => Some(a ^ b),
        OpCodes::OP_ADD => a.checked_add(b),
        OpCodes::OP_SUB => a.checked_sub(b),
        OpCodes::OP_MUL => a.checked_mul(b),
        OpCodes::OP_DIV => if b != 0 {
            Some(a / b)
        } else {
            None
        },
        OpCodes::OP_MOD => if b != 0 {
            Some(a % b)
        } else {
            None
        },
        OpCodes::OP_LSHIFT => if b < usize::BITS as usize {
            Some(a << b)
        } else {
            None
        },
        OpCodes::OP_RSHIFT => if b < usize::BITS as usize {
            Some(a >> b)
        } else {
            None
        },
        OpCodes::OP_BOOLAND => Some(truth_value(a != 0 && b != 0)),
        OpCodes::OP_BOOLOR => Some(truth_value(a != 0 || b != 0)),
        OpCodes::OP_NUMEQUAL => Some(truth_value(a == b)),
        OpCodes::OP_NUMNOTEQUAL => Some(truth_value(a != b)),
        OpCodes::OP_LESSTHAN => Some(truth_value(a < b)),
        OpCodes::OP_GREATERTHAN => Some(truth_value(a > b)),
        OpCodes::OP_LESSTHANOREQUAL => Some(truth_value(a <= b)),
        OpCodes::OP_GREATERTHANOREQUAL => Some(truth_value(a >= b)),
        OpCodes::OP_MIN => Some(if a < b {
            a
        } else {
            b
        }),
        OpCodes::OP_MAX => Some(if a > b {
            a
        } else {
            b
        }),
        _ => None,
    }
}

/// Runs a unary numeric opcode on the stack.
fn unary_num_op(stack: &mut Stack, op: OpCodes) -> (ok: bool)
    requires
        is_unary_op(op),
    ensures
        handler_post(op, old(stack)@, ok, final(stack)@),
{
    match top_num(stack, 0) {
        Some(a) => match eval_unary(op, a) {
            Some(v) => {
                stack.drop_top(1);
                stack.put(StackEntry::Num(v));
                true
            },
            None => false,
        },
        None => false,
    }
}

/// Runs a binary numeric opcode on the stack.
fn binary_num_op(stack: &mut Stack, op: OpCodes) -> (ok: bool)
    requires
        is_binary_op(op),
    ensures
        handler_post(op, old(stack)@, ok, final(stack)@),
{
    match (top_num(stack, 1), top_num(stack, 0)) {
        (Some(a), Some(b)) => match eval_binary(op, a, b) {
            Some(v) => {
                stack.drop_top(2);
                stack.put(StackEntry::Num(v));
                true
            },
            None => false,
        },
        _ => false,
    }
}

/// Pushes the number 0.
pub fn op_0(stack: &mut Stack) -> (ok: bool)
    ensures
        handler_post(OpCodes::OP_0, old(stack)@, ok, final(stack)@),
{
    stack.put(StackEntry::Num(0));
    true
}

/// Pushes the number 1.
pub fn op_1(stack: &mut Stack) -> (ok: bool)
    ensures
        handler_post(OpCodes::OP_1, old(stack)@, ok, final(stack)@),
{
    stack.put(StackEntry::Num(1));
    true
}

/// Pushes the number 2.
pub fn op_2(stack: &mut Stack) -> (ok: bool)
    ensures
        handler_post(OpCodes::OP_2, old(stack)@, ok, final(stack)@),
{
    stack.put(StackEntry::Num(2));
    true
}

/// Pushes the number 3.
pub fn op_3(stack: &mut Stack) -> (ok: bool)
    ensures
        handler_post(OpCodes::OP_3, old(stack)@, ok, final(stack)@),
{
    stack.put(StackEntry::Num(3));
    true
}

/// Pushes the number 4.
pub fn op_4(stack: &mut Stack) -> (ok: bool)
    ensures
        handler_post(OpCodes::OP_4, old(stack)@, ok, final(stack)@),
{
    stack.put(StackEntry::Num(4));
    true
}

/// Pushes the number 5.
pub fn op_5(stack: &mut Stack) -> (ok: bool)
    ensures
        handler_post(OpCodes::OP_5, old(stack)@, ok, final(stack)@),
{
    stack.put(StackEntry::Num(5));
    true
}

/// Pushes the number 6.
pub fn op_6(stack: &mut Stack) -> (ok: bool)
    ensures
        handler_post(OpCodes::OP_6, old(stack)@, ok, final(stack)@),
{
    stack.put(StackEntry::Num(6));
    true
}

/// Pushes the number 7.
pub fn op_7(stack: &mut Stack) -> (ok: bool)
    ensures
        handler_post(OpCodes::OP_7, old(stack)@, ok, final(stack)@),
{
    stack.put(StackEntry::Num(7));
    true
}

/// Pushes the number 8.
pub fn op_8(stack: &mut Stack) -> (ok: bool)
    ensures
        handler_post(OpCodes::OP_8, old(stack)@, ok, final(stack)@),
{
    stack.put(StackEntry::Num(8));
    true
}

/// Pushes the number 9.
pub fn op_9(stack: &mut Stack) -> (ok: bool)
    ensures
        handler_post(OpCodes::OP_9, old(stack)@, ok, final(stack)@),
{
    stack.put(StackEntry::Num(9));
    true
}

/// Pushes the number 10.
pub fn op_10(stack: &mut Stack) -> (ok: bool)
    ensures
        handler_post(OpCodes::OP_10, old(stack)@, ok, final(stack)@),
{
    stack.put(StackEntry::Num(10));
    true
}

/// Pushes the number 11.
pub fn op_11(stack: &mut Stack) -> (ok: bool)
    ensures
        handler_post(OpCodes::OP_11, old(stack)@, ok, final(stack)@),
{
    stack.put(StackEntry::Num(11));
    true
}

/// Pushes the number 12.
pub fn op_12(stack: &mut Stack) -> (ok: bool)
    ensures
        handler_post(OpCodes::OP_12, old(stack)@, ok, final(stack)@),
{
    stack.put(StackEntry::Num(12));
    true
}

/// Pushes the number 13.
pub fn op_13(stack: &mut Stack) -> (ok: bool)
    ensures
        handler_post(OpCodes::OP_13, old(stack)@, ok, final(stack)@),
{
    stack.put(StackEntry::Num(13));
    true
}

/// Pushes the number 14.
pub fn op_14(stack: &mut Stack) -> (ok: bool)
    ensures
        handler_post(OpCodes::OP_14, old(stack)@, ok, final(stack)@),
{
    stack.put(StackEntry::Num(14));
    true
}

/// Pushes the number 15.
pub fn op_15(stack: &mut Stack) -> (ok: bool)
    ensures
        handler_post(OpCodes::OP_15, old(stack)@, ok, final(stack)@),
{
    stack.put(StackEntry::Num(15));
    true
}

/// Pushes the number 16.
pub fn op_16(stack: &mut Stack) -> (ok: bool)
    ensures
        handler_post(OpCodes::OP_16, old(stack)@, ok, final(stack)@),
{
    stack.put(StackEntry::Num(16));
    true
}

/// Adds one to the number on top.
pub fn op_1add(stack: &mut Stack) -> (ok: bool)
    ensures
        handler_post(OpCodes::OP_1ADD, old(stack)@, ok, final(stack)@),
{
    unary_num_op(stack, OpCodes::OP_1ADD)
}

/// Subtracts one from the number on top.
pub fn op_1sub(stack: &mut Stack) -> (ok: bool)
    ensures
        handler_post(OpCodes::OP_1SUB, old(stack)@, ok, final(stack)@),
{
    unary_num_op(stack, OpCodes::OP_1SUB)
}

/// Doubles the number on top.
pub fn op_2mul(stack: &mut Stack) -> (ok: bool)
    ensures
        handler_post(OpCodes::OP_2MUL, old(stack)@, ok, final(stack)@),
{
    unary_num_op(stack, OpCodes::OP_2MUL)
}

/// Halves the number on top.
pub fn op_2div(stack: &mut Stack) -> (ok: bool)
    ensures
        handler_post(OpCodes::OP_2DIV, old(stack)@, ok, final(stack)@),
{
    unary_num_op(stack, OpCodes::OP_2DIV)
}

/// Replaces the number on top by 1 if it is zero, else by 0.
pub fn op_not(stack: &mut Stack) -> (ok: bool)
    ensures
        handler_post(OpCodes::OP_NOT, old(stack)@, ok, final(stack)@),
{
    unary_num_op(stack, OpCodes::OP_NOT)
}

/// Replaces the number on top by 1 if it is not zero, else by 0.
pub fn op_0notequal(stack: &mut Stack) -> (ok: bool)
    ensures
        handler_post(OpCodes::OP_0NOTEQUAL, old(stack)@, ok, final(stack)@),
{
    unary_num_op(stack, OpCodes::OP_0NOTEQUAL)
}

/// Flips every bit of the number on top.
pub fn op_invert(stack: &mut Stack) -> (ok: bool)
    ensures
        handler_post(OpCodes::OP_INVERT, old(stack)@, ok, final(stack)@),
{
    unary_num_op(stack, OpCodes::OP_INVERT)
}

/// Bitwise and of the two numbers on top.
pub fn op_and(stack: &mut Stack) -> (ok: bool)
    ensures
        handler_post(OpCodes::OP_AND, old(stack)@, ok, final(stack)@),
{
    binary_num_op(stack, OpCodes::OP_AND)
}

/// Bitwise or of the two numbers on top.
pub fn op_or(stack: &mut Stack) -> (ok: bool)
    ensures
        handler_post(OpCodes::OP_OR, old(stack)@, ok, final(stack)@),
{
    binary_num_op(stack, OpCodes::OP_OR)
}

/// Bitwise exclusive or of the two numbers on top.
pub fn op_xor(stack: &mut Stack) -> (ok: bool)
    ensures
        handler_post(OpCodes::OP_XOR, old(stack)@, ok, final(stack)@),
{
    binary_num_op(stack, OpCodes::OP_XOR)
}

/// Adds the two numbers on top.
pub fn op_add(stack: &mut Stack) -> (ok: bool)
    ensures
        handler_post(OpCodes::OP_ADD, old(stack)@, ok, final(stack)@),
{
    binary_num_op(stack, OpCodes::OP_ADD)
}

/// Subtracts the number on top from the one below it.
pub fn op_sub(stack: &mut Stack) -> (ok: bool)
    ensures
        handler_post(OpCodes::OP_SUB, old(stack)@, ok, final(stack)@),
{
    binary_num_op(stack, OpCodes::OP_SUB)
}

/// Multiplies the two numbers on top.
pub fn op_mul(stack: &mut Stack) -> (ok: bool)
    ensures
        handler_post(OpCodes::OP_MUL, old(stack)@, ok, final(stack)@),
{
    binary_num_op(stack, OpCodes::OP_MUL)
}

/// Divides the second number from the top by the number on top.
pub fn op_div(stack: &mut Stack) -> (ok: bool)
    ensures
        handler_post(OpCodes::OP_DIV, old(stack)@, ok, final(stack)@),
{
    binary_num_op(stack, OpCodes::OP_DIV)
}

/// The remainder of the second number from the top divided by the number on top.
pub fn op_mod(stack: &mut Stack) -> (ok: bool)
    ensures
        handler_post(OpCodes::OP_MOD, old(stack)@, ok, final(stack)@),
{
    binary_num_op(stack, OpCodes::OP_MOD)
}

/// Shifts the second number from the top left by the number on top.
pub fn op_lshift(stack: &mut Stack) -> (ok: bool)
    ensures
        handler_post(OpCodes::OP_LSHIFT, old(stack)@, ok, final(stack)@),
{
    binary_num_op(stack, OpCodes::OP_LSHIFT)
}

/// Shifts the second number from the top right by the number on top.
pub fn op_rshift(stack: &mut Stack) -> (ok: bool)
    ensures
        handler_post(OpCodes::OP_RSHIFT, old(stack)@, ok, final(stack)@),
{
    binary_num_op(stack, OpCodes::OP_RSHIFT)
}

/// 1 if both numbers on top are non-zero, else 0.
pub fn op_booland(stack: &mut Stack) -> (ok: bool)
    ensures
        handler_post(OpCodes::OP_BOOLAND, old(stack)@, ok, final(stack)@),
{
    binary_num_op(stack, OpCodes::OP_BOOLAND)
}

/// 1 if one of the two numbers on top is non-zero, else 0.
pub fn op_boolor(stack: &mut Stack) -> (ok: bool)
    ensures
        handler_post(OpCodes::OP_BOOLOR, old(stack)@, ok, final(stack)@),
{
    binary_num_op(stack, OpCodes::OP_BOOLOR)
}

/// 1 if the two numbers on top are equal, else 0.
pub fn op_numequal(stack: &mut Stack) -> (ok: bool)
    ensures
        handler_post(OpCodes::OP_NUMEQUAL, old(stack)@, ok, final(stack)@),
{
    binary_num_op(stack, OpCodes::OP_NUMEQUAL)
}

/// 1 if the two numbers on top differ, else 0.
pub fn op_numnotequal(stack: &mut Stack) -> (ok: bool)
    ensures
        handler_post(OpCodes::OP_NUMNOTEQUAL, old(stack)@, ok, final(stack)@),
{
    binary_num_op(stack, OpCodes::OP_NUMNOTEQUAL)
}

/// 1 if the second number from the top is less than the number on top, else 0.
pub fn op_lessthan(stack: &mut Stack) -> (ok: bool)
    ensures
        handler_post(OpCodes::OP_LESSTHAN, old(stack)@, ok, final(stack)@),
{
    binary_num_op(stack, OpCodes::OP_LESSTHAN)
}

/// 1 if the second number from the top is greater than the number on top, else 0.
pub fn op_greaterthan(stack: &mut Stack) -> (ok: bool)
    ensures
        handler_post(OpCodes::OP_GREATERTHAN, old(stack)@, ok, final(stack)@),
{
    binary_num_op(stack, OpCodes::OP_GREATERTHAN)
}

/// 1 if the second number from the top is at most the number on top, else 0.
pub fn op_lessthanorequal(stack: &mut Stack) -> (ok: bool)
    ensures
        handler_post(OpCodes::OP_LESSTHANOREQUAL, old(stack)@, ok, final(stack)@),
{
    binary_num_op(stack, OpCodes::OP_LESSTHANOREQUAL)
}

/// 1 if the second number from the top is at least the number on top, else 0.
pub fn op_greaterthanorequal(stack: &mut Stack) -> (ok: bool)
    ensures
        handler_post(OpCodes::OP_GREATERTHANOREQUAL, old(stack)@, ok, final(stack)@),
{
    binary_num_op(stack, OpCodes::OP_GREATERTHANOREQUAL)
}

/// The smaller of the two numbers on top.
pub fn op_min(stack: &mut Stack) -> (ok: bool)
    ensures
        handler_post(OpCodes::OP_MIN, old(stack)@, ok, final(stack)@),
{
    binary_num_op(stack, OpCodes::OP_MIN)
}

/// The larger of the two numbers on top.
pub fn op_max(stack: &mut Stack) -> (ok: bool)
    ensures
        handler_post(OpCodes::OP_MAX, old(stack)@, ok, final(stack)@),
{
    binary_num_op(stack, OpCodes::OP_MAX)
}

/// Does nothing.
pub fn op_nop(stack: &mut Stack) -> (ok: bool)
    ensures
        handler_post(OpCodes::OP_NOP, old(stack)@, ok, final(stack)@),
{
    true
}

/// Marks an asset creation; does nothing to the stacks.
pub fn op_create(stack: &mut Stack) -> (ok: bool)
    ensures
        handler_post(OpCodes::OP_CREATE, old(stack)@, ok, final(stack)@),
{
    true
}

/// Removes the top and fails unless it is a number other than zero.
pub fn op_verify(stack: &mut Stack) -> (ok: bool)
    ensures
        handler_post(OpCodes::OP_VERIFY, old(stack)@, ok, final(stack)@),
{
    if stack.depth() < 1 {
        return false;
    }
    let top = top_num(stack, 0);
    stack.drop_top(1);
    match top {
        Some(n) => n != 0,
        None => false,
    }
}

/// Always fails.
pub fn op_return(stack: &mut Stack) -> (ok: bool)
    ensures
        handler_post(OpCodes::OP_RETURN, old(stack)@, ok, final(stack)@),
{
    false
}

/// Moves the top of the main stack to the alternative stack.
pub fn op_toaltstack(stack: &mut Stack) -> (ok: bool)
    ensures
        handler_post(OpCodes::OP_TOALTSTACK, old(stack)@, ok, final(stack)@),
{
    if stack.depth() < 1 {
        return false;
    }
    stack.to_alt()
}

/// Moves the top of the alternative stack to the main stack.
pub fn op_fromaltstack(stack: &mut Stack) -> (ok: bool)
    ensures
        handler_post(OpCodes::OP_FROMALTSTACK, old(stack)@, ok, final(stack)@),
{
    if stack.alt_depth() < 1 {
        return false;
    }
    stack.from_alt()
}

/// Drops the two items on top.
pub fn op_2drop(stack: &mut Stack) -> (ok: bool)
    ensures
        handler_post(OpCodes::OP_2DROP, old(stack)@, ok, final(stack)@),
{
    if stack.depth() < 2 {
        return false;
    }
    stack.drop_top(2);
    true
}

/// Copies the two items on top.
pub fn op_2dup(stack: &mut Stack) -> (ok: bool)
    ensures
        handler_post(OpCodes::OP_2DUP, old(stack)@, ok, final(stack)@),
{
    if stack.depth() < 2 {
        return false;
    }
    let a = stack.peek(1);
    let b = stack.peek(0);
    stack.put(a);
    stack.put(b);
    true
}

/// Copies the three items on top.
pub fn op_3dup(stack: &mut Stack) -> (ok: bool)
    ensures
        handler_post(OpCodes::OP_3DUP, old(stack)@, ok, final(stack)@),
{
    if stack.depth() < 3 {
        return false;
    }
    let a = stack.peek(2);
    let b = stack.peek(1);
    let c = stack.peek(0);
    stack.put(a);
    stack.put(b);
    stack.put(c);
    true
}

/// Copies the third and fourth items from the top onto the top.
pub fn op_2over(stack: &mut Stack) -> (ok: bool)
    ensures
        handler_post(OpCodes::OP_2OVER, old(stack)@, ok, final(stack)@),
{
    if stack.depth() < 4 {
        return false;
    }
    let a = stack.peek(3);
    let b = stack.peek(2);
    stack.put(a);
    stack.put(b);
    true
}

/// Moves the fifth and sixth items from the top onto the top.
pub fn op_2rot(stack: &mut Stack) -> (ok: bool)
    ensures
        handler_post(OpCodes::OP_2ROT, old(stack)@, ok, final(stack)@),
{
    if stack.depth() < 6 {
        return false;
    }
    let a = stack.take(5);
    let b = stack.take(4);
    stack.put(a);
    stack.put(b);
    true
}

/// Swaps the two pairs of items on top.
pub fn op_2swap(stack: &mut Stack) -> (ok: bool)
    ensures
        handler_post(OpCodes::OP_2SWAP, old(stack)@, ok, final(stack)@),
{
    if stack.depth() < 4 {
        return false;
    }
    let a = stack.take(3);
    let b = stack.take(2);
    stack.put(a);
    stack.put(b);
    true
}

/// Copies the top if it is a number other than zero.
pub fn op_ifdup(stack: &mut Stack) -> (ok: bool)
    ensures
        handler_post(OpCodes::OP_IFDUP, old(stack)@, ok, final(stack)@),
{
    if stack.depth() < 1 {
        return false;
    }
    match top_num(stack, 0) {
        Some(n) => {
            if n != 0 {
                stack.put(StackEntry::Num(n));
            }
        },
        None => {},
    }
    true
}

/// Pushes the number of items on the main stack.
pub fn op_depth(stack: &mut Stack) -> (ok: bool)
    ensures
        handler_post(OpCodes::OP_DEPTH, old(stack)@, ok, final(stack)@),
{
    let n: usize = stack.depth();
    stack.put(StackEntry::Num(n));
    true
}

/// Drops the top.
pub fn op_drop(stack: &mut Stack) -> (ok: bool)
    ensures
        handler_post(OpCodes::OP_DROP, old(stack)@, ok, final(stack)@),
{
    if stack.depth() < 1 {
        return false;
    }
    stack.drop_top(1);
    true
}

/// Copies the top.
pub fn op_dup(stack: &mut Stack) -> (ok: bool)
    ensures
        handler_post(OpCodes::OP_DUP, old(stack)@, ok, final(stack)@),
{
    if stack.depth() < 1 {
        return false;
    }
    let a = stack.peek(0);
    stack.put(a);
    true
}

/// Removes the second item from the top.
pub fn op_nip(stack: &mut Stack) -> (ok: bool)
    ensures
        handler_post(OpCodes::OP_NIP, old(stack)@, ok, final(stack)@),
{
    if stack.depth() < 2 {
        return false;
    }
    let _ = stack.take(1);
    true
}

/// Copies the second item from the top onto the top.
pub fn op_over(stack: &mut Stack) -> (ok: bool)
    ensures
        handler_post(OpCodes::OP_OVER, old(stack)@, ok, final(stack)@),
{
    if stack.depth() < 2 {
        return false;
    }
    let a = stack.peek(1);
    stack.put(a);
    true
}

/// Removes the number `k` on top and copies the item `k` places under the new top onto
/// the top.
pub fn op_pick(stack: &mut Stack) -> (ok: bool)
    ensures
        handler_post(OpCodes::OP_PICK, old(stack)@, ok, final(stack)@),
{
    match top_num(stack, 0) {
        Some(k) => {
            if k >= stack.depth() - 1 {
                return false;
            }
            stack.drop_top(1);
            let e = stack.peek(k);
            stack.put(e);
            true
        },
        None => false,
    }
}

/// Removes the number `k` on top and moves the item `k` places under the new top onto
/// the top.
pub fn op_roll(stack: &mut Stack) -> (ok: bool)
    ensures
        handler_post(OpCodes::OP_ROLL, old(stack)@, ok, final(stack)@),
{
    match top_num(stack, 0) {
        Some(k) => {
            if k >= stack.depth() - 1 {
                return false;
            }
            stack.drop_top(1);
            let e = stack.take(k);
            stack.put(e);
            true
        },
        None => false,
    }
}

/// Moves the third item from the top onto the top.
pub fn op_rot(stack: &mut Stack) -> (ok: bool)
    ensures
        handler_post(OpCodes::OP_ROT, old(stack)@, ok, final(stack)@),
{
    if stack.depth() < 3 {
        return false;
    }
    let e = stack.take(2);
    stack.put(e);
    true
}

/// Swaps the two items on top.
pub fn op_swap(stack: &mut Stack) -> (ok: bool)
    ensures
        handler_post(OpCodes::OP_SWAP, old(stack)@, ok, final(stack)@),
{
    if stack.depth() < 2 {
        return false;
    }
    let e = stack.take(1);
    stack.put(e);
    true
}

/// Copies the top under the second item from the top.
pub fn op_tuck(stack: &mut Stack) -> (ok: bool)
    ensures
        handler_post(OpCodes::OP_TUCK, old(stack)@, ok, final(stack)@),
{
    if stack.depth() < 2 {
        return false;
    }
    let a = stack.take(1);
    let b = stack.peek(0);
    stack.put(a);
    stack.put(b);
    proof {
        let m = old(stack)@.main;
        assert(final(stack)@.main =~= m.insert(m.len() - 2, m[m.len() - 1]));
    }
    true
}

/// Replaces the two items on top by 1 if they are the same, else by 0.
pub fn op_equal(stack: &mut Stack) -> (ok: bool)
    ensures
        handler_post(OpCodes::OP_EQUAL, old(stack)@, ok, final(stack)@),
{
    if stack.depth() < 2 {
        return false;
    }
    let a = stack.peek(1);
    let b = stack.peek(0);
    let same = a.same_as(&b);
    stack.drop_top(2);
    stack.put(StackEntry::Num(truth_value(same)));
    true
}

/// Removes the two items on top and fails unless they are the same.
pub fn op_equalverify(stack: &mut Stack) -> (ok: bool)
    ensures
        handler_post(OpCodes::OP_EQUALVERIFY, old(stack)@, ok, final(stack)@),
{
    if stack.depth() < 2 {
        return false;
    }
    let a = stack.peek(1);
    let b = stack.peek(0);
    let same = a.same_as(&b);
    stack.drop_top(2);
    proof {
        let m = old(stack)@.main;
        assert(final(stack)@.main =~= m.subrange(0, m.len() - 2).push(
            Item::Num(truth(same)),
        ).drop_last());
    }
    same
}

/// Removes the two numbers on top and fails unless they are equal.
pub fn op_numequalverify(stack: &mut Stack) -> (ok: bool)
    ensures
        handler_post(OpCodes::OP_NUMEQUALVERIFY, old(stack)@, ok, final(stack)@),
{
    match (top_num(stack, 1), top_num(stack, 0)) {
        (Some(a), Some(b)) => {
            stack.drop_top(2);
            proof {
                let m = old(stack)@.main;
                assert(final(stack)@.main =~= m.subrange(0, m.len() - 2).push(
                    Item::Num(truth(a == b)),
                ).drop_last());
            }
            a == b
        },
        _ => false,
    }
}

/// Replaces `x`, `lo`, `hi` (top) by 1 if `lo <= x < hi`, else by 0.
pub fn op_within(stack: &mut Stack) -> (ok: bool)
    ensures
        handler_post(OpCodes::OP_WITHIN, old(stack)@, ok, final(stack)@),
{
    match (top_num(stack, 2), top_num(stack, 1), top_num(stack, 0)) {
        (Some(x), Some(lo), Some(hi)) => {
            stack.drop_top(3);
            stack.put(StackEntry::Num(truth_value(lo <= x && x < hi)));
            true
        },
        _ => false,
    }
}

/// The text on the main stack `below` places under the top, where that item is a text.
pub fn top_text(stack: &Stack, below: usize) -> (r: Option<String>)
    ensures
        r is Some == (below < stack@.main.len() && stack@.main[stack@.main.len() - 1
            - below] is Bytes),
        r is Some ==> r->0@ == stack@.main[stack@.main.len() - 1 - below]->Bytes_0,
{
    if below >= stack.depth() {
        return None;
    }
    match stack.peek(below) {
        StackEntry::Bytes(t) => Some(t),
        _ => None,
    }
}

/// Cuts the bytes `from..to` out of a text; `None` where an end falls inside a character
/// or outside the text.
#[verifier::rlimit(40)]
pub fn slice_text(text: &String, from: usize, to: usize) -> (r: Option<String>)
    ensures
        r is Some == text_slice(text@, from as int, to as int) is Some,
        r is Some ==> r->0@ == text_slice(text@, from as int, to as int)->0,
{
    if from > to || to > text_len(text) {
        return None;
    }
    let whole = text.as_str();
    if !whole.is_char_boundary(from) || !whole.is_char_boundary(to) {
        return None;
    }
    let ghost bytes = encode_utf8(text@);
    let (_, tail) = whole.split_at(from);
    proof {
        encode_utf8_valid_utf8(text@);
        encode_utf8_valid_utf8(tail@);
        let tail_bytes = encode_utf8(tail@);
        assert(tail_bytes =~= bytes.subrange(from as int, bytes.len() as int));
        is_char_boundary_start_end_of_seq(tail_bytes);
        if 0 < to - from < tail_bytes.len() {
            is_char_boundary_iff_not_is_continuation_byte(bytes, to as int);
            is_char_boundary_iff_not_is_continuation_byte(tail_bytes, to - from);
        }
    }
    let (mid, _) = tail.split_at(to - from);
    let cut = mid.to_owned();
    proof {
        encode_utf8_decode_utf8(mid@);
        assert(encode_utf8(mid@) =~= bytes.subrange(from as int, to as int));
    }
    Some(cut)
}

/// Replaces the two texts on top by their concatenation, unless it is over the item size.
pub fn op_cat(stack: &mut Stack) -> (ok: bool)
    ensures
        handler_post(OpCodes::OP_CAT, old(stack)@, ok, final(stack)@),
{
    match (top_text(stack, 1), top_text(stack, 0)) {
        (Some(a), Some(b)) => {
            if text_len(&a) > MAX_SCRIPT_ITEM_SIZE as usize || text_len(&b)
                > MAX_SCRIPT_ITEM_SIZE as usize - text_len(&a) {
                return false;
            }
            let joined = a.concat(b.as_str());
            stack.drop_top(2);
            stack.put(StackEntry::Bytes(joined));
            true
        },
        _ => false,
    }
}

/// Replaces a text, a start and a count (top) by the `count` bytes of the text from
/// `start` on.
pub fn op_substr(stack: &mut Stack) -> (ok: bool)
    ensures
        handler_post(OpCodes::OP_SUBSTR, old(stack)@, ok, final(stack)@),
{
    match (top_text(stack, 2), top_num(stack, 1), top_num(stack, 0)) {
        (Some(text), Some(start), Some(count)) => {
            let size: usize = text_len(&text);
            if start >= size || count > size - start {
                return false;
            }
            match slice_text(&text, start, start + count) {
                Some(cut) => {
                    stack.drop_top(3);
                    stack.put(StackEntry::Bytes(cut));
                    true
                },
                None => false,
            }
        },
        _ => false,
    }
}

/// Replaces a text and a count (top) by the first `count` bytes of the text; the whole
/// text where it is no longer than that.
pub fn op_left(stack: &mut Stack) -> (ok: bool)
    ensures
        handler_post(OpCodes::OP_LEFT, old(stack)@, ok, final(stack)@),
{
    match (top_text(stack, 1), top_num(stack, 0)) {
        (Some(text), Some(count)) => {
            if count >= text_len(&text) {
                stack.drop_top(1);
                return true;
            }
            match slice_text(&text, 0, count) {
                Some(cut) => {
                    stack.drop_top(2);
                    stack.put(StackEntry::Bytes(cut));
                    true
                },
                None => false,
            }
        },
        _ => false,
    }
}

/// Replaces a text and a start (top) by the bytes of the text from `start` on; the empty
/// text where the start lies behind the text.
pub fn op_right(stack: &mut Stack) -> (ok: bool)
    ensures
        handler_post(OpCodes::OP_RIGHT, old(stack)@, ok, final(stack)@),
{
    match (top_text(stack, 1), top_num(stack, 0)) {
        (Some(text), Some(start)) => {
            let size: usize = text_len(&text);
            if start >= size {
                stack.drop_top(2);
                stack.put(StackEntry::Bytes(String::new()));
                return true;
            }
            match slice_text(&text, start, size) {
                Some(cut) => {
                    stack.drop_top(2);
                    stack.put(StackEntry::Bytes(cut));
                    true
                },
                None => false,
            }
        },
        _ => false,
    }
}

/// Pushes the number of bytes of the text on top.
pub fn op_size(stack: &mut Stack) -> (ok: bool)
    ensures
        handler_post(OpCodes::OP_SIZE, old(stack)@, ok, final(stack)@),
{
    match top_text(stack, 0) {
        Some(text) => {
            stack.put(StackEntry::Num(text_len(&text)));
            true
        },
        None => false,
    }
}

/// Replaces the item on top by `entry`.
pub fn replace_top(stack: &mut Stack, entry: StackEntry)
    requires
        old(stack)@.main.len() >= 1,
    ensures
        final(stack)@.main == old(stack)@.main.drop_last().push(entry@),
        final(stack)@.alt == old(stack)@.alt,
{
    stack.drop_top(1);
    stack.put(entry);
}

/// Replaces the top `count` items by the verdict `valid`: by 1 for true, by 0 for false.
pub fn settle_verdict(stack: &mut Stack, count: usize, valid: bool)
    requires
        count <= old(stack)@.main.len(),
    ensures
        final(stack)@.main == old(stack)@.main.subrange(
            0,
            old(stack)@.main.len() - count,
        ).push(Item::Num(truth(valid))),
        final(stack)@.alt == old(stack)@.alt,
{
    stack.drop_top(count);
    stack.put(StackEntry::Num(truth_value(valid)));
}

/// Removes the top `count` items, which `valid` is the verdict on, and hands the verdict
/// back.
pub fn settle_verified(stack: &mut Stack, count: usize, valid: bool) -> (ok: bool)
    requires
        count <= old(stack)@.main.len(),
    ensures
        ok == valid,
        final(stack)@.main == old(stack)@.main.subrange(0, old(stack)@.main.len() - count),
        final(stack)@.alt == old(stack)@.alt,
{
    stack.drop_top(count);
    valid
}

/// Replaces the item on top by the hexadecimal text of its SHA3-256 digest.
pub fn op_sha3(stack: &mut Stack) -> (ok: bool)
    ensures
        handler_post(OpCodes::OP_SHA3, old(stack)@, ok, final(stack)@),
{
    if stack.depth() < 1 {
        return false;
    }
    let hash = match stack.peek(0) {
        StackEntry::Bytes(t) => digest(t.as_str().as_bytes()),
        StackEntry::PubKeyHash(t) => digest(t.as_str().as_bytes()),
        StackEntry::PubKey(pk) => digest(pk.bytes.as_slice()),
        StackEntry::Signature(sig) => digest(sig.bytes.as_slice()),
        _ => {
            return false;
        },
    };
    let text = hex_encode(hash.as_slice());
    replace_top(stack, StackEntry::Bytes(text));
    true
}

/// Replaces the public key on top by its current address.
pub fn op_hash256(stack: &mut Stack) -> (ok: bool)
    ensures
        handler_post(OpCodes::OP_HASH256, old(stack)@, ok, final(stack)@),
{
    if stack.depth() < 1 {
        return false;
    }
    match stack.peek(0) {
        StackEntry::PubKey(pk) => {
            let addr = construct_address(&pk);
            replace_top(stack, StackEntry::PubKeyHash(addr));
            true
        },
        _ => false,
    }
}

/// Replaces the public key on top by its first legacy address.
pub fn op_hash256_v0(stack: &mut Stack) -> (ok: bool)
    ensures
        handler_post(OpCodes::OP_HASH256_V0, old(stack)@, ok, final(stack)@),
{
    if stack.depth() < 1 {
        return false;
    }
    match stack.peek(0) {
        StackEntry::PubKey(pk) => {
            let addr = construct_address_v0(&pk);
            replace_top(stack, StackEntry::PubKeyHash(addr));
            true
        },
        _ => false,
    }
}

/// Replaces the public key on top by its temporary legacy address.
pub fn op_hash256_temp(stack: &mut Stack) -> (ok: bool)
    ensures
        handler_post(OpCodes::OP_HASH256_TEMP, old(stack)@, ok, final(stack)@),
{
    if stack.depth() < 1 {
        return false;
    }
    match stack.peek(0) {
        StackEntry::PubKey(pk) => {
            let addr = construct_address_temp(&pk);
            replace_top(stack, StackEntry::PubKeyHash(addr));
            true
        },
        _ => false,
    }
}

/// Whether message, signature and key lie on top of the stack, and if so whether the
/// signature is valid.
pub fn check_top_signature(stack: &Stack) -> (r: Option<bool>)
    ensures
        r is Some == checksig_top(stack@) is Some,
        r is Some ==> checksig_top(stack@)->0.main.last() == Item::Num(truth(r->0)),
{
    if stack.depth() < 3 {
        return None;
    }
    match (stack.peek(2), stack.peek(1), stack.peek(0)) {
        (StackEntry::Bytes(msg), StackEntry::Signature(sig), StackEntry::PubKey(pk)) => Some(
            ed25519_verify(msg.as_str().as_bytes(), &sig, &pk),
        ),
        _ => None,
    }
}

/// Replaces message, signature and key (top) by 1 if the signature is valid, else by 0.
pub fn op_checksig(stack: &mut Stack) -> (ok: bool)
    ensures
        handler_post(OpCodes::OP_CHECKSIG, old(stack)@, ok, final(stack)@),
{
    match check_top_signature(stack) {
        Some(valid) => {
            settle_verdict(stack, 3, valid);
            true
        },
        None => false,
    }
}

/// Removes message, signature and key (top) and fails unless the signature is valid.
pub fn op_checksigverify(stack: &mut Stack) -> (ok: bool)
    ensures
        handler_post(OpCodes::OP_CHECKSIGVERIFY, old(stack)@, ok, final(stack)@),
{
    match check_top_signature(stack) {
        Some(valid) => {
            let ok = settle_verified(stack, 3, valid);
            proof {
                let m = old(stack)@.main;
                assert(final(stack)@.main =~= m.subrange(0, m.len() - 3).push(
                    Item::Num(truth(valid)),
                ).drop_last());
            }
            ok
        },
        None => false,
    }
}

/// The byte strings of a sequence of keys.
pub open spec fn key_views(keys: Seq<PublicKey>) -> Seq<Seq<u8>> {
    keys.map_values(|k: PublicKey| k@)
}

/// The byte strings of a sequence of signatures.
pub open spec fn sig_views(sigs: Seq<Signature>) -> Seq<Seq<u8>> {
    sigs.map_values(|s: Signature| s@)
}

/// The parts of a multisig check read off a stack.
pub struct MultisigParts {
    pub msg: String,
    pub sigs: Vec<Signature>,
    pub keys: Vec<PublicKey>,
}

/// Reads message, signatures and keys of a multisig check off the top of the stack,
/// leaving the stack as it is.
#[verifier::rlimit(40)]
pub fn read_multisig(stack: &Stack) -> (r: Option<MultisigParts>)
    ensures
        r is Some == multisig_frame(stack@.main) is Some,
        r is Some ==> {
            let f = multisig_frame(stack@.main)->0;
            &&& r->0.msg@ == f.msg
            &&& sig_views(r->0.sigs@) == f.sigs
            &&& key_views(r->0.keys@) == f.keys
            &&& f.sigs.len() + f.keys.len() + 3 <= stack@.main.len()
            &&& f.rest == stack@.main.subrange(
                0,
                stack@.main.len() - 3 - f.sigs.len() - f.keys.len(),
            )
        },
{
    let len: usize = stack.depth();
    let ghost main = stack@.main;
    let n: usize = match top_num(stack, 0) {
        Some(n) => n,
        None => {
            return None;
        },
    };
    if n > MAX_PUB_KEYS_PER_MULTISIG as usize || len < 2 || len - 2 < n {
        return None;
    }
    let ghost key_run = main.subrange(len - 1 - n, len - 1);
    let mut keys: Vec<PublicKey> = Vec::new();
    let mut i: usize = 0;
    while i < n
        invariant
            i <= n,
            n + 2 <= len,
            len == main.len(),
            main == stack@.main,
            main[len - 1] == Item::Num(n),
            n <= MAX_PUB_KEYS_PER_MULTISIG,
            key_run == main.subrange(len - 1 - n, len - 1),
            keys@.len() == i,
            forall|j: int|
                0 <= j < i ==> (#[trigger] key_run[j]) is PubKey && keys@[j]@
                    == key_run[j]->PubKey_0,
        decreases n - i,
    {
        assert(key_run[i as int] == main[len - 1 - n + i]);
        match stack.peek(n - i) {
            StackEntry::PubKey(pk) => {
                keys.push(pk);
            },
            _ => {
                assert(!(main[len - 1 - n + i] is PubKey));
                return None;
            },
        }
        i += 1;
    }
    assert forall|k: int| len - 1 - n <= k < len - 1 implies (#[trigger] main[k]) is PubKey by {
        assert(key_run[k - (len - 1 - n)] is PubKey);
    }
    let m: usize = match top_num(stack, n + 1) {
        Some(m) => m,
        None => {
            return None;
        },
    };
    if m > n || len - 2 - n < m + 1 {
        return None;
    }
    let ghost sig_run = main.subrange(len - 2 - n - m, len - 2 - n);
    let mut sigs: Vec<Signature> = Vec::new();
    let mut i: usize = 0;
    while i < m
        invariant
            i <= m <= n,
            n + m + 3 <= len,
            len == main.len(),
            main == stack@.main,
            main[len - 1] == Item::Num(n),
            main[len - 2 - n] == Item::Num(m),
            n <= MAX_PUB_KEYS_PER_MULTISIG,
            forall|k: int| len - 1 - n <= k < len - 1 ==> (#[trigger] main[k]) is PubKey,
            sig_run == main.subrange(len - 2 - n - m, len - 2 - n),
            sigs@.len() == i,
            forall|j: int|
                0 <= j < i ==> (#[trigger] sig_run[j]) is Signature && sigs@[j]@
                    == sig_run[j]->Signature_0,
        decreases m - i,
    {
        assert(sig_run[i as int] == main[len - 2 - n - m + i]);
        match stack.peek(n + 1 + m - i) {
            StackEntry::Signature(sig) => {
                sigs.push(sig);
            },
            _ => {
                assert(!(main[len - 2 - n - m + i] is Signature));
                return None;
            },
        }
        i += 1;
    }
    assert forall|k: int| len - 2 - n - m <= k < len - 2 - n implies (#[trigger] main[k])
        is Signature by {
        assert(sig_run[k - (len - 2 - n - m)] is Signature);
    }
    let msg = match top_text(stack, n + m + 2) {
        Some(t) => t,
        None => {
            return None;
        },
    };
    proof {
        let f = multisig_frame(main)->0;
        assert(multisig_frame(main) is Some);
        assert(f.sigs == sigs_of(sig_run));
        assert(f.keys == keys_of(key_run));
        assert(sig_views(sigs@) =~= f.sigs);
        assert(key_views(keys@) =~= f.keys);
    }
    Some(MultisigParts { msg, sigs, keys })
}

/// The rows of a table of verdicts.
pub open spec fn rows(table: Seq<Vec<bool>>) -> Seq<Seq<bool>> {
    table.map_values(|r: Vec<bool>| r@)
}

/// The column numbers in a list of columns.
pub open spec fn column_numbers(cols: Seq<usize>) -> Seq<int> {
    cols.map_values(|c: usize| c as int)
}

/// Finds among the columns `cols` the first that holds true in `row`.
pub fn find_column(row: &Vec<bool>, cols: &Vec<usize>) -> (r: Option<usize>)
    requires
        forall|c: int| 0 <= c < cols@.len() ==> (#[trigger] cols@[c]) < row@.len(),
    ensures
        r is Some == first_true(row@, column_numbers(cols@)) is Some,
        r is Some ==> r->0 == first_true(row@, column_numbers(cols@))->0 && r->0 < cols@.len(),
{
    let mut i: usize = 0;
    while i < cols.len()
        invariant
            i <= cols@.len(),
            forall|c: int| 0 <= c < cols@.len() ==> (#[trigger] cols@[c]) < row@.len(),
            forall|d: int| 0 <= d < i ==> !row@[#[trigger] column_numbers(cols@)[d]],
        decreases cols@.len() - i,
    {
        assert(column_numbers(cols@)[i as int] == cols@[i as int]);
        if row[cols[i]] {
            proof {
                lemma_first_true_at(row@, column_numbers(cols@), i as int);
            }
            return Some(i);
        }
        i += 1;
    }
    proof {
        lemma_first_true_at(row@, column_numbers(cols@), i as int);
    }
    None
}

/// Decides a multisig check on its table of verdicts, where row `i`, column `j` says
/// whether signature `i` signs under key `j`: every row, in order, must find a column
/// that holds true and that no earlier row has taken; each row takes the first.
#[verifier::rlimit(40)]
pub fn match_table(table: &Vec<Vec<bool>>, columns: usize) -> (r: bool)
    requires
        forall|i: int| 0 <= i < table@.len() ==> (#[trigger] table@[i])@.len() == columns,
    ensures
        r == table_matches(rows(table@), 0, all_columns(columns as nat)),
{
    let mut cols: Vec<usize> = Vec::new();
    let mut j: usize = 0;
    while j < columns
        invariant
            j <= columns,
            cols@.len() == j,
            forall|c: int| 0 <= c < j ==> (#[trigger] cols@[c]) == c,
        decreases columns - j,
    {
        cols.push(j);
        j += 1;
    }
    assert(column_numbers(cols@) =~= all_columns(columns as nat));
    let mut i: usize = 0;
    while i < table.len()
        invariant
            i <= table@.len(),
            forall|k: int| 0 <= k < table@.len() ==> (#[trigger] table@[k])@.len() == columns,
            forall|c: int| 0 <= c < cols@.len() ==> (#[trigger] cols@[c]) < columns,
            table_matches(rows(table@), 0, all_columns(columns as nat)) == table_matches(
                rows(table@),
                i as int,
                column_numbers(cols@),
            ),
        decreases table@.len() - i,
    {
        assert(rows(table@)[i as int] == table@[i as int]@);
        match find_column(&table[i], &cols) {
            Some(c) => {
                let ghost before = column_numbers(cols@);
                let _ = cols.remove(c);
                assert(column_numbers(cols@) =~= before.remove(c as int));
            },
            None => {
                return false;
            },
        }
        i += 1;
    }
    true
}

/// Builds the table of verdicts of a multisig check: one row per signature, one column
/// per key.
#[verifier::rlimit(40)]
pub fn verdict_rows(msg: &[u8], sigs: &Vec<Signature>, keys: &Vec<PublicKey>) -> (table: Vec<
    Vec<bool>,
>)
    ensures
        rows(table@) == verdict_table(msg@, sig_views(sigs@), key_views(keys@)),
        forall|i: int| 0 <= i < table@.len() ==> (#[trigger] table@[i])@.len() == keys@.len(),
{
    let mut table: Vec<Vec<bool>> = Vec::new();
    let ghost want = verdict_table(msg@, sig_views(sigs@), key_views(keys@));
    let mut i: usize = 0;
    while i < sigs.len()
        invariant
            i <= sigs@.len(),
            table@.len() == i,
            want == verdict_table(msg@, sig_views(sigs@), key_views(keys@)),
            forall|k: int| 0 <= k < i ==> (#[trigger] table@[k])@ == want[k],
        decreases sigs@.len() - i,
    {
        let mut row: Vec<bool> = Vec::new();
        let mut j: usize = 0;
        while j < keys.len()
            invariant
                j <= keys@.len(),
                i < sigs@.len(),
                row@.len() == j,
                want == verdict_table(msg@, sig_views(sigs@), key_views(keys@)),
                forall|c: int| 0 <= c < j ==> #[trigger] row@[c] == want[i as int][c],
            decreases keys@.len() - j,
        {
            let valid = ed25519_verify(msg, &sigs[i], &keys[j]);
            assert(valid == want[i as int][j as int]);
            row.push(valid);
            j += 1;
        }
        assert(row@ =~= want[i as int]);
        table.push(row);
        i += 1;
    }
    assert(rows(table@) =~= want);
    table
}

/// Checks that every signature finds a key of its own under which it signs `msg`.
pub fn verify_multisig(msg: &[u8], sigs: &Vec<Signature>, keys: Vec<PublicKey>) -> (r: bool)
    ensures
        r == all_signatures_match(msg@, sig_views(sigs@), key_views(keys@)),
{
    let table = verdict_rows(msg, sigs, &keys);
    let r = match_table(&table, keys.len());
    proof {
        let s = sig_views(sigs@);
        let k = key_views(keys@);
        let cols = all_columns(k.len());
        lemma_table_matches(msg@, s, k, 0, cols);
        assert(s.subrange(0, s.len() as int) =~= s);
        assert(chosen_keys(k, cols) =~= k);
    }
    r
}

/// The outcome of a multisig check: whether all signatures match, and how many items
/// the frame takes on the stack.
pub struct MultisigVerdict {
    pub valid: bool,
    pub count: usize,
}

/// Whether a multisig frame lies on top of the stack, and if so whether all its
/// signatures match, and how many items the frame takes.
pub fn check_top_multisig(stack: &Stack) -> (r: Option<MultisigVerdict>)
    ensures
        r is Some == multisig_frame(stack@.main) is Some,
        r is Some ==> {
            let f = multisig_frame(stack@.main)->0;
            &&& r->0.valid == all_signatures_match(encode_utf8(f.msg), f.sigs, f.keys)
            &&& r->0.count <= stack@.main.len()
            &&& f.rest == stack@.main.subrange(0, stack@.main.len() - r->0.count)
        },
{
    match read_multisig(stack) {
        Some(parts) => {
            let count: usize = parts.sigs.len() + parts.keys.len() + 3;
            let valid = verify_multisig(parts.msg.as_str().as_bytes(), &parts.sigs, parts.keys);
            Some(MultisigVerdict { valid, count })
        },
        None => None,
    }
}

/// Replaces a multisig frame by 1 if every signature finds a key of its own, else by 0.
pub fn op_checkmultisig(stack: &mut Stack) -> (ok: bool)
    ensures
        handler_post(OpCodes::OP_CHECKMULTISIG, old(stack)@, ok, final(stack)@),
{
    match check_top_multisig(stack) {
        Some(MultisigVerdict { valid, count }) => {
            settle_verdict(stack, count, valid);
            true
        },
        None => false,
    }
}

/// Removes a multisig frame and fails unless every signature finds a key of its own.
pub fn op_checkmultisigverify(stack: &mut Stack) -> (ok: bool)
    ensures
        handler_post(OpCodes::OP_CHECKMULTISIGVERIFY, old(stack)@, ok, final(stack)@),
{
    match check_top_multisig(stack) {
        Some(MultisigVerdict { valid, count }) => {
            let ok = settle_verified(stack, count, valid);
            proof {
                let m = old(stack)@.main;
                assert(final(stack)@.main =~= m.subrange(0, m.len() - count).push(
                    Item::Num(truth(valid)),
                ).drop_last());
            }
            ok
        },
        None => false,
    }
}

/// Opens a condition. In an executing branch the number on top is removed and becomes
/// the condition; fails where the top is missing or no number.
pub fn op_if(stack: &mut Stack, cond_stack: &mut ConditionStack) -> (ok: bool)
    ensures
        control_post(
            exec_if(false, machine(old(stack)@, old(cond_stack)@)),
            machine(old(stack)@, old(cond_stack)@),
            ok,
            machine(final(stack)@, final(cond_stack)@),
        ),
{
    open_condition(stack, cond_stack, false)
}

/// Opens a condition as `op_if` does, with the condition negated.
pub fn op_notif(stack: &mut Stack, cond_stack: &mut ConditionStack) -> (ok: bool)
    ensures
        control_post(
            exec_if(true, machine(old(stack)@, old(cond_stack)@)),
            machine(old(stack)@, old(cond_stack)@),
            ok,
            machine(final(stack)@, final(cond_stack)@),
        ),
{
    open_condition(stack, cond_stack, true)
}

/// The common part of `op_if` and `op_notif`.
pub fn open_condition(stack: &mut Stack, cond_stack: &mut ConditionStack, negate: bool) -> (ok:
    bool)
    ensures
        control_post(
            exec_if(negate, machine(old(stack)@, old(cond_stack)@)),
            machine(old(stack)@, old(cond_stack)@),
            ok,
            machine(final(stack)@, final(cond_stack)@),
        ),
{
    if cond_stack.size == usize::MAX {
        return false;
    }
    if !cond_stack.all_true() {
        cond_stack.push(true);
        return true;
    }
    match top_num(stack, 0) {
        Some(n) => {
            stack.drop_top(1);
            cond_stack.push((n != 0) != negate);
            true
        },
        None => false,
    }
}

/// Negates the innermost condition; fails where none is open.
pub fn op_else(cond_stack: &mut ConditionStack) -> (ok: bool)
    ensures
        ok == (old(cond_stack)@.size > 0),
        ok ==> final(cond_stack)@ == old(cond_stack)@.toggle(),
        !ok ==> final(cond_stack)@ == old(cond_stack)@,
{
    if cond_stack.is_empty() {
        return false;
    }
    cond_stack.toggle();
    true
}

/// Closes the innermost condition; fails where none is open.
pub fn op_endif(cond_stack: &mut ConditionStack) -> (ok: bool)
    ensures
        ok == (old(cond_stack)@.size > 0),
        ok ==> final(cond_stack)@ == old(cond_stack)@.pop(),
        !ok ==> final(cond_stack)@ == old(cond_stack)@,
{
    if cond_stack.is_empty() {
        return false;
    }
    cond_stack.pop();
    true
}

/// What a handler of a conditional opcode owes: it succeeds exactly where `expected` is
/// a state, and then leaves that state; where it fails nothing has changed.
pub open spec fn control_post(expected: Option<Machine>, pre: Machine, ok: bool, post: Machine) -> bool {
    &&& ok == expected is Some
    &&& ok ==> post == expected->0
    &&& !ok ==> post == pre
}

/// Runs the handler of an opcode that is not one of conditional execution; those fail
/// here.
#[verifier::rlimit(40)]
pub fn run_op(op: OpCodes, stack: &mut Stack) -> (ok: bool)
    ensures
        handler_post(op, old(stack)@, ok, final(stack)@),
{
    match op {
        OpCodes::OP_0 => op_0(stack),
        OpCodes::OP_1 => op_1(stack),
        OpCodes::OP_2 => op_2(stack),
        OpCodes::OP_3 => op_3(stack),
        OpCodes::OP_4 => op_4(stack),
        OpCodes::OP_5 => op_5(stack),
        OpCodes::OP_6 => op_6(stack),
        OpCodes::OP_7 => op_7(stack),
        OpCodes::OP_8 => op_8(stack),
        OpCodes::OP_9 => op_9(stack),
        OpCodes::OP_10 => op_10(stack),
        OpCodes::OP_11 => op_11(stack),
        OpCodes::OP_12 => op_12(stack),
        OpCodes::OP_13 => op_13(stack),
        OpCodes::OP_14 => op_14(stack),
        OpCodes::OP_15 => op_15(stack),
        OpCodes::OP_16 => op_16(stack),
        OpCodes::OP_1ADD => op_1add(stack),
        OpCodes::OP_1SUB => op_1sub(stack),
        OpCodes::OP_2MUL => op_2mul(stack),
        OpCodes::OP_2DIV => op_2div(stack),
        OpCodes::OP_NOT => op_not(stack),
        OpCodes::OP_0NOTEQUAL => op_0notequal(stack),
        OpCodes::OP_INVERT => op_invert(stack),
        OpCodes::OP_AND => op_and(stack),
        OpCodes::OP_OR => op_or(stack),
        OpCodes::OP_XOR => op_xor(stack),
        OpCodes::OP_ADD => op_add(stack),
        OpCodes::OP_SUB => op_sub(stack),
        OpCodes::OP_MUL => op_mul(stack),
        OpCodes::OP_DIV => op_div(stack),
        OpCodes::OP_MOD => op_mod(stack),
        OpCodes::OP_LSHIFT => op_lshift(stack),
        OpCodes::OP_RSHIFT => op_rshift(stack),
        OpCodes::OP_BOOLAND => op_booland(stack),
        OpCodes::OP_BOOLOR => op_boolor(stack),
        OpCodes::OP_NUMEQUAL => op_numequal(stack),
        OpCodes::OP_NUMNOTEQUAL => op_numnotequal(stack),
        OpCodes::OP_LESSTHAN => op_lessthan(stack),
        OpCodes::OP_GREATERTHAN => op_greaterthan(stack),
        OpCodes::OP_LESSTHANOREQUAL => op_lessthanorequal(stack),
        OpCodes::OP_GREATERTHANOREQUAL => op_greaterthanorequal(stack),
        OpCodes::OP_MIN => op_min(stack),
        OpCodes::OP_MAX => op_max(stack),
        OpCodes::OP_NOP => op_nop(stack),
        OpCodes::OP_CREATE => op_create(stack),
        OpCodes::OP_VERIFY => op_verify(stack),
        OpCodes::OP_RETURN => op_return(stack),
        OpCodes::OP_TOALTSTACK => op_toaltstack(stack),
        OpCodes::OP_FROMALTSTACK => op_fromaltstack(stack),
        OpCodes::OP_2DROP => op_2drop(stack),
        OpCodes::OP_2DUP => op_2dup(stack),
        OpCodes::OP_3DUP => op_3dup(stack),
        OpCodes::OP_2OVER => op_2over(stack),
        OpCodes::OP_2ROT => op_2rot(stack),
        OpCodes::OP_2SWAP => op_2swap(stack),
        OpCodes::OP_IFDUP => op_ifdup(stack),
        OpCodes::OP_DEPTH => op_depth(stack),
        OpCodes::OP_DROP => op_drop(stack),
        OpCodes::OP_DUP => op_dup(stack),
        OpCodes::OP_NIP => op_nip(stack),
        OpCodes::OP_OVER => op_over(stack),
        OpCodes::OP_PICK => op_pick(stack),
        OpCodes::OP_ROLL => op_roll(stack),
        OpCodes::OP_ROT => op_rot(stack),
        OpCodes::OP_SWAP => op_swap(stack),
        OpCodes::OP_TUCK => op_tuck(stack),
        OpCodes::OP_EQUAL => op_equal(stack),
        OpCodes::OP_EQUALVERIFY => op_equalverify(stack),
        OpCodes::OP_NUMEQUALVERIFY => op_numequalverify(stack),
        OpCodes::OP_WITHIN => op_within(stack),
        OpCodes::OP_CAT => op_cat(stack),
        OpCodes::OP_SUBSTR => op_substr(stack),
        OpCodes::OP_LEFT => op_left(stack),
        OpCodes::OP_RIGHT => op_right(stack),
        OpCodes::OP_SIZE => op_size(stack),
        OpCodes::OP_SHA3 => op_sha3(stack),
        OpCodes::OP_HASH256 => op_hash256(stack),
        OpCodes::OP_HASH256_V0 => op_hash256_v0(stack),
        OpCodes::OP_HASH256_TEMP => op_hash256_temp(stack),
        OpCodes::OP_CHECKSIG => op_checksig(stack),
        OpCodes::OP_CHECKSIGVERIFY => op_checksigverify(stack),
        OpCodes::OP_CHECKMULTISIG => op_checkmultisig(stack),
        OpCodes::OP_CHECKMULTISIGVERIFY => op_checkmultisigverify(stack),
        OpCodes::OP_IF | OpCodes::OP_NOTIF | OpCodes::OP_ELSE | OpCodes::OP_ENDIF => false,
    }
}

/// Runs one entry of a script: a conditional opcode always, any other opcode and any
/// data only in an executing branch; then checks the size of the stacks.
#[verifier::rlimit(40)]
pub fn run_entry(entry: &StackEntry, stack: &mut Stack, cond_stack: &mut ConditionStack) -> (ok:
    bool)
    ensures
        ok == step(entry@, machine(old(stack)@, old(cond_stack)@)) is Some,
        ok ==> machine(final(stack)@, final(cond_stack)@) == step(
            entry@,
            machine(old(stack)@, old(cond_stack)@),
        )->0,
{
    let done = match entry {
        StackEntry::Op(op) => match op {
            OpCodes::OP_IF => op_if(stack, cond_stack),
            OpCodes::OP_NOTIF => op_notif(stack, cond_stack),
            OpCodes::OP_ELSE => op_else(cond_stack),
            OpCodes::OP_ENDIF => op_endif(cond_stack),
            _ => if cond_stack.all_true() {
                run_op(*op, stack)
            } else {
                true
            },
        },
        _ => if cond_stack.all_true() {
            stack.push(entry.duplicate())
        } else {
            true
        },
    };
    done && stack.is_valid()
}

} // verus!
