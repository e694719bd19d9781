//! What each opcode does to the stacks, as mathematical functions.

use vstd::prelude::*;
use vstd::utf8::{decode_utf8, encode_utf8, is_char_boundary};
use crate::addresses::{spec_address, spec_address_temp, spec_address_v0};
use crate::constants::{MAX_PUB_KEYS_PER_MULTISIG, MAX_SCRIPT_ITEM_SIZE};
use crate::crypto::{digest_of, hex_chars, spec_sign_verify};
use crate::opcodes::{text_size, Item, OpCodes};
use crate::stacks::StackState;

verus! {

/// The number 1 for true, 0 for false.
pub open spec fn truth(b: bool) -> usize {
    if b {
        1
    } else {
        0
    }
}

/// The number that a constant opcode pushes.
pub open spec fn const_value(op: OpCodes) -> Option<usize> {
    match op {
        OpCodes::OP_0 => Some(0),
        OpCodes::OP_1 => Some(1),
        OpCodes::OP_2 => Some(2),
        OpCodes::OP_3 => Some(3),
        OpCodes::OP_4 => Some(4),
        OpCodes::OP_5 => Some(5),
        OpCodes::OP_6 => Some(6),
        OpCodes::OP_7 => Some(7),
        OpCodes::OP_8 => Some(8),
        OpCodes::OP_9 => Some(9),
        OpCodes::OP_10 => Some(10),
        OpCodes::OP_11 => Some(11),
        OpCodes::OP_12 => Some(12),
        OpCodes::OP_13 => Some(13),
        OpCodes::OP_14 => Some(14),
        OpCodes::OP_15 => Some(15),
        OpCodes::OP_16 => Some(16),
        _ => None,
    }
}

/// The opcodes that replace the number on top by a number.
pub open spec fn is_unary_op(op: OpCodes) -> bool {
    op == OpCodes::OP_1ADD || op == OpCodes::OP_1SUB || op == OpCodes::OP_2MUL || op
        == OpCodes::OP_2DIV || op == OpCodes::OP_NOT || op == OpCodes::OP_0NOTEQUAL || op
        == OpCodes::OP_INVERT
}

/// The result of a unary opcode on `a`; `None` where it fails.
pub open spec fn unary_value(op: OpCodes, a: usize) -> Option<usize> {
    match op {
        OpCodes::OP_1ADD => if a < usize::MAX {
            Some((a + 1) as usize)
        } else {
            None
        },
        OpCodes::OP_1SUB => if a > 0 {
            Some((a - 1) as usize)
        } else {
            None
        },
        OpCodes::OP_2MUL => if 2 * a <= usize::MAX {
            Some((2 * a) as usize)
        } else {
            None
        },
        OpCodes::OP_2DIV => Some(a / 2),
        OpCodes::OP_NOT => Some(truth(a == 0)),
        OpCodes::OP_0NOTEQUAL => Some(truth(a != 0)),
        OpCodes::OP_INVERT => Some(!a),
        _ => None,
    }
}

/// The opcodes that replace the two numbers on top by a number.
pub open spec fn is_binary_op(op: OpCodes) -> bool {
    match op {
        OpCodes::OP_AND
        | OpCodes::OP_OR
        | OpCodes::OP_XOR
        | OpCodes::OP_ADD
        | OpCodes::OP_SUB
        | OpCodes::OP_MUL
        | OpCodes::OP_DIV
        | OpCodes::OP_MOD
        | OpCodes::OP_LSHIFT
        | OpCodes::OP_RSHIFT
        | OpCodes::OP_BOOLAND
        | OpCodes::OP_BOOLOR
        | OpCodes::OP_NUMEQUAL
        | OpCodes::OP_NUMNOTEQUAL
        | OpCodes::OP_LESSTHAN
        | OpCodes::OP_GREATERTHAN
        | OpCodes::OP_LESSTHANOREQUAL
        | OpCodes::OP_GREATERTHANOREQUAL
        | OpCodes::OP_MIN
        | OpCodes::OP_MAX => true,
        _ => false,
    }
}

/// The result of a binary opcode on `a` (pushed first) and `b` (on top); `None` where it
/// fails.
pub open spec fn binary_value(op: OpCodes, a: usize, b: usize) -> Option<usize> {
    match op {
        OpCodes::OP_AND => Some(a & b),
        OpCodes::OP_OR => Some(a | b),
        OpCodes::OP_XOR => Some(a ^ b),
        OpCodes::OP_ADD => if a + b <= usize::MAX {
            Some((a + b) as usize)
        } else {
            None
        },
        OpCodes::OP_SUB => if b <= a {
            Some((a - b) as usize)
        } else {
            None
        },
        OpCodes::OP_MUL => if a * b <= usize::MAX {
            Some((a * b) as usize)
        } else {
            None
        },
        OpCodes::OP_DIV => if b != 0 {
            Some(a / b)
        } else {
            None
        },
        OpCodes::OP_MOD => if b != 0 {
            Some(a % b)
        } else {
            None
        },
        OpCodes::OP_LSHIFT => if b < usize::BITS {
            Some(a << b)
        } else {
            None
        },
        OpCodes::OP_RSHIFT => if b < usize::BITS {
            Some(a >> b)
        } else {
            None
        },
        OpCodes::OP_BOOLAND => Some(truth(a != 0 && b != 0)),
        OpCodes::OP_BOOLOR => Some(truth(a != 0 || b != 0)),
        OpCodes::OP_NUMEQUAL => Some(truth(a == b)),
        OpCodes::OP_NUMNOTEQUAL => Some(truth(a != b)),
        OpCodes::OP_LESSTHAN => Some(truth(a < b)),
        OpCodes::OP_GREATERTHAN => Some(truth(a > b)),
        OpCodes::OP_LESSTHANOREQUAL => Some(truth(a <= b)),
        OpCodes::OP_GREATERTHANOREQUAL => Some(truth(a >= b)),
        OpCodes::OP_MIN => Some(if a < b {
            a
        } else {
            b
        }),
        OpCodes::OP_MAX => Some(if a > b {
            a
        } else {
            b
        }),
        _ => None,
    }
}

/// The text whose UTF-8 bytes are the bytes `from..to` of the bytes of `s`, if both ends
/// fall between characters.
pub open spec fn text_slice(s: Seq<char>, from: int, to: int) -> Option<Seq<char>> {
    let b = encode_utf8(s);
    if 0 <= from <= to <= b.len() && is_char_boundary(b, from) && is_char_boundary(b, to) {
        Some(decode_utf8(b.subrange(from, to)))
    } else {
        None
    }
}

/// The bytes that `OP_SHA3` hashes for an item; `None` for a number or an opcode.
pub open spec fn raw_bytes(it: Item) -> Option<Seq<u8>> {
    match it {
        Item::Bytes(s) => Some(encode_utf8(s)),
        Item::PubKeyHash(s) => Some(encode_utf8(s)),
        Item::PubKey(p) => Some(p),
        Item::Signature(s) => Some(s),
        _ => None,
    }
}

/// The index of the first key under which `sig` signs `msg`, if there is one.
pub open spec fn first_match(msg: Seq<u8>, sig: Seq<u8>, keys: Seq<Seq<u8>>) -> Option<int>
    decreases keys.len(),
{
    if keys.len() == 0 {
        None
    } else if spec_sign_verify(msg, sig, keys[0]) {
        Some(0)
    } else {
        match first_match(msg, sig, keys.subrange(1, keys.len() as int)) {
            Some(i) => Some(i + 1),
            None => None,
        }
    }
}

/// Whether every signature, taken in order, finds a key that has not been used by an
/// earlier signature and under which it signs `msg`. Each signature takes the first such
/// key.
pub open spec fn all_signatures_match(msg: Seq<u8>, sigs: Seq<Seq<u8>>, keys: Seq<Seq<u8>>) -> bool
    decreases sigs.len(),
{
    if sigs.len() == 0 {
        true
    } else {
        match first_match(msg, sigs[0], keys) {
            Some(i) => all_signatures_match(
                msg,
                sigs.subrange(1, sigs.len() as int),
                keys.remove(i),
            ),
            None => false,
        }
    }
}

/// The first position in `cols` whose column holds true in `row`, if there is one.
pub open spec fn first_true(row: Seq<bool>, cols: Seq<int>) -> Option<int>
    decreases cols.len(),
{
    if cols.len() == 0 {
        None
    } else if row[cols[0]] {
        Some(0)
    } else {
        match first_true(row, cols.subrange(1, cols.len() as int)) {
            Some(c) => Some(c + 1),
            None => None,
        }
    }
}

/// Whether every row of a table of verdicts, from row `from` on and in order, finds
/// among the columns `cols` one that holds true and that no earlier row has taken. Each
/// row takes the first such column.
pub open spec fn table_matches(table: Seq<Seq<bool>>, from: int, cols: Seq<int>) -> bool
    decreases table.len() - from,
{
    if from < 0 || from >= table.len() {
        true
    } else {
        match first_true(table[from], cols) {
            Some(c) => table_matches(table, from + 1, cols.remove(c)),
            None => false,
        }
    }
}

/// The columns `0 .. n`.
pub open spec fn all_columns(n: nat) -> Seq<int> {
    Seq::new(n, |j: int| j)
}

/// The table of verdicts of a multisig check: row `i`, column `j` says whether signature
/// `i` signs the message under key `j`.
pub open spec fn verdict_table(msg: Seq<u8>, sigs: Seq<Seq<u8>>, keys: Seq<Seq<u8>>) -> Seq<
    Seq<bool>,
> {
    Seq::new(
        sigs.len(),
        |i: int| Seq::new(keys.len(), |j: int| spec_sign_verify(msg, sigs[i], keys[j])),
    )
}

/// The keys that stand in the columns `cols`.
pub open spec fn chosen_keys(keys: Seq<Seq<u8>>, cols: Seq<int>) -> Seq<Seq<u8>> {
    cols.map_values(|c: int| keys[c])
}

/// The first true column is a column that holds true, wherever one does.
pub proof fn lemma_first_true_found(row: Seq<bool>, cols: Seq<int>)
    ensures
        match first_true(row, cols) {
            Some(c) => 0 <= c < cols.len() && row[cols[c]] && forall|d: int|
                0 <= d < c ==> !row[#[trigger] cols[d]],
            None => forall|d: int| 0 <= d < cols.len() ==> !row[#[trigger] cols[d]],
        },
    decreases cols.len(),
{
    if cols.len() > 0 && !row[cols[0]] {
        let tail = cols.subrange(1, cols.len() as int);
        lemma_first_true_found(row, tail);
        match first_true(row, tail) {
            Some(c) => {
                assert(tail[c] == cols[c + 1]);
                assert forall|d: int| 0 <= d < c + 1 implies !row[#[trigger] cols[d]] by {
                    if d > 0 {
                        assert(tail[d - 1] == cols[d]);
                    }
                }
            },
            None => {
                assert forall|d: int| 0 <= d < cols.len() implies !row[#[trigger] cols[d]] by {
                    if d > 0 {
                        assert(tail[d - 1] == cols[d]);
                    }
                }
            },
        }
    }
}

/// Where no column before position `at` holds true, the first true column is `at` if it
/// holds true, and there is none if `at` is the end.
pub proof fn lemma_first_true_at(row: Seq<bool>, cols: Seq<int>, at: int)
    requires
        0 <= at <= cols.len(),
        forall|d: int| 0 <= d < at ==> !row[#[trigger] cols[d]],
    ensures
        at < cols.len() && row[cols[at]] ==> first_true(row, cols) == Some(at),
        at == cols.len() ==> first_true(row, cols) is None,
{
    lemma_first_true_found(row, cols);
    match first_true(row, cols) {
        Some(c) => {
            if at < cols.len() && row[cols[at]] {
                if c < at {
                    assert(!row[cols[c]]);
                }
                if at < c {
                    assert(!row[cols[at]]);
                }
            } else if at == cols.len() {
                assert(!row[cols[c]]);
            }
        },
        None => {
            if at < cols.len() {
                assert(!row[cols[at]]);
            }
        },
    }
}

/// In a row of the table of verdicts, the first true column among `cols` is the first
/// match of the row's signature among the keys in those columns.
pub proof fn lemma_first_true_is_first_match(
    msg: Seq<u8>,
    sig: Seq<u8>,
    keys: Seq<Seq<u8>>,
    row: Seq<bool>,
    cols: Seq<int>,
)
    requires
        forall|c: int| 0 <= c < cols.len() ==> 0 <= #[trigger] cols[c] < keys.len(),
        forall|j: int| 0 <= j < keys.len() ==> #[trigger] row[j] == spec_sign_verify(msg, sig, keys[j]),
    ensures
        first_match(msg, sig, chosen_keys(keys, cols)) == first_true(row, cols),
    decreases cols.len(),
{
    if cols.len() > 0 {
        let tail = cols.subrange(1, cols.len() as int);
        assert(chosen_keys(keys, cols)[0] == keys[cols[0]]);
        assert(row[cols[0]] == spec_sign_verify(msg, sig, keys[cols[0]]));
        assert(chosen_keys(keys, tail) =~= chosen_keys(keys, cols).subrange(
            1,
            cols.len() as int,
        ));
        assert forall|c: int| 0 <= c < tail.len() implies 0 <= #[trigger] tail[c] < keys.len() by {
            assert(tail[c] == cols[c + 1]);
        }
        lemma_first_true_is_first_match(msg, sig, keys, row, tail);
    }
}

/// Matching on the table of verdicts is matching of the signatures against the keys.
#[verifier::rlimit(40)]
pub proof fn lemma_table_matches(
    msg: Seq<u8>,
    sigs: Seq<Seq<u8>>,
    keys: Seq<Seq<u8>>,
    from: int,
    cols: Seq<int>,
)
    requires
        0 <= from <= sigs.len(),
        forall|c: int| 0 <= c < cols.len() ==> 0 <= #[trigger] cols[c] < keys.len(),
    ensures
        all_signatures_match(
            msg,
            sigs.subrange(from, sigs.len() as int),
            chosen_keys(keys, cols),
        ) == table_matches(verdict_table(msg, sigs, keys), from, cols),
    decreases sigs.len() - from,
{
    let table = verdict_table(msg, sigs, keys);
    let rest = sigs.subrange(from, sigs.len() as int);
    if from < sigs.len() {
        assert(rest[0] == sigs[from]);
        lemma_first_true_is_first_match(msg, sigs[from], keys, table[from], cols);
        lemma_first_true_found(table[from], cols);
        match first_true(table[from], cols) {
            Some(c) => {
                let left = cols.remove(c);
                assert(chosen_keys(keys, left) =~= chosen_keys(keys, cols).remove(c));
                assert(rest.subrange(1, rest.len() as int) =~= sigs.subrange(
                    from + 1,
                    sigs.len() as int,
                ));
                assert forall|d: int| 0 <= d < left.len() implies 0 <= #[trigger] left[d]
                    < keys.len() by {
                    if d < c {
                        assert(left[d] == cols[d]);
                    } else {
                        assert(left[d] == cols[d + 1]);
                    }
                }
                lemma_table_matches(msg, sigs, keys, from + 1, left);
            },
            None => {},
        }
    }
}

/// The parts of a multisig check as they lie on the stack, bottom to top: the message,
/// `m` signatures, the number `m`, `n` keys, the number `n`.
pub struct MultisigFrame {
    pub msg: Seq<char>,
    pub sigs: Seq<Seq<u8>>,
    pub keys: Seq<Seq<u8>>,
    pub rest: Seq<Item>,
}

/// The keys held by a run of `PubKey` items.
pub open spec fn keys_of(run: Seq<Item>) -> Seq<Seq<u8>> {
    run.map_values(|it: Item| it->PubKey_0)
}

/// The signatures held by a run of `Signature` items.
pub open spec fn sigs_of(run: Seq<Item>) -> Seq<Seq<u8>> {
    run.map_values(|it: Item| it->Signature_0)
}

/// Reads a multisig frame off the top of `main`; `None` where the counts are out of
/// range, an item is missing or an item has the wrong kind.
pub open spec fn multisig_frame(main: Seq<Item>) -> Option<MultisigFrame> {
    let len = main.len() as int;
    if len >= 1 && main[len - 1] is Num {
        let n = main[len - 1]->Num_0 as int;
        if n <= MAX_PUB_KEYS_PER_MULTISIG && len >= n + 2 && (forall|i: int|
            len - 1 - n <= i < len - 1 ==> (#[trigger] main[i]) is PubKey) && main[len - 2
            - n] is Num {
            let m = main[len - 2 - n]->Num_0 as int;
            if m <= n && len >= n + m + 3 && (forall|i: int|
                len - 2 - n - m <= i < len - 2 - n ==> (#[trigger] main[i]) is Signature)
                && main[len - 3 - n - m] is Bytes {
                Some(
                    MultisigFrame {
                        msg: main[len - 3 - n - m]->Bytes_0,
                        sigs: sigs_of(main.subrange(len - 2 - n - m, len - 2 - n)),
                        keys: keys_of(main.subrange(len - 1 - n, len - 1)),
                        rest: main.subrange(0, len - 3 - n - m),
                    },
                )
            } else {
                None
            }
        } else {
            None
        }
    } else {
        None
    }
}

/// `OP_VERIFY`: removes the top, and fails unless it is a number other than zero.
pub open spec fn verify_top(s: StackState) -> Option<StackState> {
    if s.main.len() >= 1 && s.main.last() is Num && s.main.last()->Num_0 != 0 {
        Some(StackState { main: s.main.drop_last(), alt: s.alt })
    } else {
        None
    }
}

/// Runs `verify_top` on the outcome of an opcode, if it succeeded.
pub open spec fn then_verify(r: Option<StackState>) -> Option<StackState> {
    match r {
        Some(s) => verify_top(s),
        None => None,
    }
}

/// `OP_EQUAL`: replaces the two items on top by 1 if they are the same, else by 0.
pub open spec fn equal_top(s: StackState) -> Option<StackState> {
    let m = s.main;
    let n = m.len() as int;
    if n >= 2 {
        Some(
            StackState {
                main: m.subrange(0, n - 2).push(Item::Num(truth(m[n - 2] == m[n - 1]))),
                alt: s.alt,
            },
        )
    } else {
        None
    }
}

/// `OP_CHECKSIG`: replaces message, signature and key by 1 if the signature is valid,
/// else by 0.
pub open spec fn checksig_top(s: StackState) -> Option<StackState> {
    let m = s.main;
    let n = m.len() as int;
    if n >= 3 && m[n - 1] is PubKey && m[n - 2] is Signature && m[n - 3] is Bytes {
        Some(
            StackState {
                main: m.subrange(0, n - 3).push(
                    Item::Num(
                        truth(
                            spec_sign_verify(
                                encode_utf8(m[n - 3]->Bytes_0),
                                m[n - 2]->Signature_0,
                                m[n - 1]->PubKey_0,
                            ),
                        ),
                    ),
                ),
                alt: s.alt,
            },
        )
    } else {
        None
    }
}

/// `OP_CHECKMULTISIG`: replaces a multisig frame by 1 if all its signatures match, else
/// by 0.
pub open spec fn checkmultisig_top(s: StackState) -> Option<StackState> {
    match multisig_frame(s.main) {
        Some(f) => Some(
            StackState {
                main: f.rest.push(
                    Item::Num(truth(all_signatures_match(encode_utf8(f.msg), f.sigs, f.keys))),
                ),
                alt: s.alt,
            },
        ),
        None => None,
    }
}

/// An opcode that turns a public key on top into an address.
pub open spec fn hash_key_top(s: StackState, address: spec_fn(Seq<u8>) -> Seq<char>) -> Option<
    StackState,
> {
    if s.main.len() >= 1 && s.main.last() is PubKey {
        Some(
            StackState {
                main: s.main.drop_last().push(Item::PubKeyHash(address(s.main.last()->PubKey_0))),
                alt: s.alt,
            },
        )
    } else {
        None
    }
}

/// The stacks after a numeric opcode: a constant, a unary or a binary one.
pub open spec fn exec_numeric(op: OpCodes, s: StackState) -> Option<StackState> {
    let m = s.main;
    let n = m.len() as int;
    if const_value(op) is Some {
        Some(StackState { main: m.push(Item::Num(const_value(op)->0)), alt: s.alt })
    } else if is_unary_op(op) {
        if n >= 1 && m[n - 1] is Num {
            match unary_value(op, m[n - 1]->Num_0) {
                Some(v) => Some(StackState { main: m.drop_last().push(Item::Num(v)), alt: s.alt }),
                None => None,
            }
        } else {
            None
        }
    } else if n >= 2 && m[n - 1] is Num && m[n - 2] is Num {
        match binary_value(op, m[n - 2]->Num_0, m[n - 1]->Num_0) {
            Some(v) => Some(
                StackState { main: m.subrange(0, n - 2).push(Item::Num(v)), alt: s.alt },
            ),
            None => None,
        }
    } else {
        None
    }
}

/// The stacks after an opcode that moves, copies or drops items.
pub open spec fn exec_stack_op(op: OpCodes, s: StackState) -> Option<StackState> {
    let m = s.main;
    let n = m.len() as int;
    let alt = s.alt;
    match op {
        OpCodes::OP_TOALTSTACK => if n >= 1 {
            Some(StackState { main: m.drop_last(), alt: alt.push(m.last()) })
        } else {
            None
        },
        OpCodes::OP_FROMALTSTACK => if alt.len() >= 1 {
            Some(StackState { main: m.push(alt.last()), alt: alt.drop_last() })
        } else {
            None
        },
        OpCodes::OP_2DROP => if n >= 2 {
            Some(StackState { main: m.subrange(0, n - 2), alt })
        } else {
            None
        },
        OpCodes::OP_2DUP => if n >= 2 {
            Some(StackState { main: m.push(m[n - 2]).push(m[n - 1]), alt })
        } else {
            None
        },
        OpCodes::OP_3DUP => if n >= 3 {
            Some(StackState { main: m.push(m[n - 3]).push(m[n - 2]).push(m[n - 1]), alt })
        } else {
            None
        },
        OpCodes::OP_2OVER => if n >= 4 {
            Some(StackState { main: m.push(m[n - 4]).push(m[n - 3]), alt })
        } else {
            None
        },
        OpCodes::OP_2ROT => if n >= 6 {
            Some(
                StackState {
                    main: m.remove(n - 6).remove(n - 6).push(m[n - 6]).push(m[n - 5]),
                    alt,
                },
            )
        } else {
            None
        },
        OpCodes::OP_2SWAP => if n >= 4 {
            Some(
                StackState {
                    main: m.remove(n - 4).remove(n - 4).push(m[n - 4]).push(m[n - 3]),
                    alt,
                },
            )
        } else {
            None
        },
        OpCodes::OP_IFDUP => if n >= 1 {
            if m[n - 1] is Num && m[n - 1]->Num_0 != 0 {
                Some(StackState { main: m.push(m[n - 1]), alt })
            } else {
                Some(s)
            }
        } else {
            None
        },
        OpCodes::OP_DEPTH => Some(StackState { main: m.push(Item::Num(n as usize)), alt }),
        OpCodes::OP_DROP => if n >= 1 {
            Some(StackState { main: m.drop_last(), alt })
        } else {
            None
        },
        OpCodes::OP_DUP => if n >= 1 {
            Some(StackState { main: m.push(m[n - 1]), alt })
        } else {
            None
        },
        OpCodes::OP_NIP => if n >= 2 {
            Some(StackState { main: m.remove(n - 2), alt })
        } else {
            None
        },
        OpCodes::OP_OVER => if n >= 2 {
            Some(StackState { main: m.push(m[n - 2]), alt })
        } else {
            None
        },
        OpCodes::OP_PICK => if n >= 1 && m[n - 1] is Num && m[n - 1]->Num_0 < n - 1 {
            Some(StackState { main: m.drop_last().push(m[n - 2 - m[n - 1]->Num_0]), alt })
        } else {
            None
        },
        OpCodes::OP_ROLL => if n >= 1 && m[n - 1] is Num && m[n - 1]->Num_0 < n - 1 {
            Some(
                StackState {
                    main: m.drop_last().remove(n - 2 - m[n - 1]->Num_0).push(
                        m[n - 2 - m[n - 1]->Num_0],
                    ),
                    alt,
                },
            )
        } else {
            None
        },
        OpCodes::OP_ROT => if n >= 3 {
            Some(StackState { main: m.remove(n - 3).push(m[n - 3]), alt })
        } else {
            None
        },
        OpCodes::OP_SWAP => if n >= 2 {
            Some(StackState { main: m.remove(n - 2).push(m[n - 2]), alt })
        } else {
            None
        },
        OpCodes::OP_TUCK => if n >= 2 {
            Some(StackState { main: m.insert(n - 2, m[n - 1]), alt })
        } else {
            None
        },
        _ => None,
    }
}

/// The stacks after an opcode that works on texts.
pub open spec fn exec_splice(op: OpCodes, s: StackState) -> Option<StackState> {
    let m = s.main;
    let n = m.len() as int;
    let alt = s.alt;
    match op {
        OpCodes::OP_CAT => if n >= 2 && m[n - 1] is Bytes && m[n - 2] is Bytes && text_size(
            m[n - 2]->Bytes_0,
        ) + text_size(m[n - 1]->Bytes_0) <= MAX_SCRIPT_ITEM_SIZE {
            Some(
                StackState {
                    main: m.subrange(0, n - 2).push(
                        Item::Bytes(m[n - 2]->Bytes_0 + m[n - 1]->Bytes_0),
                    ),
                    alt,
                },
            )
        } else {
            None
        },
        OpCodes::OP_SUBSTR => if n >= 3 && m[n - 1] is Num && m[n - 2] is Num && m[n - 3] is Bytes {
            let text = m[n - 3]->Bytes_0;
            let start = m[n - 2]->Num_0 as int;
            let count = m[n - 1]->Num_0 as int;
            if start < text_size(text) && start + count <= text_size(text) {
                match text_slice(text, start, start + count) {
                    Some(t) => Some(
                        StackState { main: m.subrange(0, n - 3).push(Item::Bytes(t)), alt },
                    ),
                    None => None,
                }
            } else {
                None
            }
        } else {
            None
        },
        OpCodes::OP_LEFT => if n >= 2 && m[n - 1] is Num && m[n - 2] is Bytes {
            let text = m[n - 2]->Bytes_0;
            let count = m[n - 1]->Num_0 as int;
            if count >= text_size(text) {
                Some(StackState { main: m.drop_last(), alt })
            } else {
                match text_slice(text, 0, count) {
                    Some(t) => Some(
                        StackState { main: m.subrange(0, n - 2).push(Item::Bytes(t)), alt },
                    ),
                    None => None,
                }
            }
        } else {
            None
        },
        OpCodes::OP_RIGHT => if n >= 2 && m[n - 1] is Num && m[n - 2] is Bytes {
            let text = m[n - 2]->Bytes_0;
            let start = m[n - 1]->Num_0 as int;
            if start >= text_size(text) {
                Some(
                    StackState {
                        main: m.subrange(0, n - 2).push(Item::Bytes(Seq::<char>::empty())),
                        alt,
                    },
                )
            } else {
                match text_slice(text, start, text_size(text) as int) {
                    Some(t) => Some(
                        StackState { main: m.subrange(0, n - 2).push(Item::Bytes(t)), alt },
                    ),
                    None => None,
                }
            }
        } else {
            None
        },
        OpCodes::OP_SIZE => if n >= 1 && m[n - 1] is Bytes {
            Some(StackState { main: m.push(Item::Num(text_size(m[n - 1]->Bytes_0) as usize)), alt })
        } else {
            None
        },
        _ => None,
    }
}

/// The stacks after an opcode that hashes or checks signatures.
pub open spec fn exec_crypto(op: OpCodes, s: StackState) -> Option<StackState> {
    let m = s.main;
    let n = m.len() as int;
    match op {
        OpCodes::OP_SHA3 => if n >= 1 && raw_bytes(m[n - 1]) is Some {
            Some(
                StackState {
                    main: m.drop_last().push(
                        Item::Bytes(hex_chars(digest_of(raw_bytes(m[n - 1])->0))),
                    ),
                    alt: s.alt,
                },
            )
        } else {
            None
        },
        OpCodes::OP_HASH256 => hash_key_top(s, |pk: Seq<u8>| spec_address(pk)),
        OpCodes::OP_HASH256_V0 => hash_key_top(s, |pk: Seq<u8>| spec_address_v0(pk)),
        OpCodes::OP_HASH256_TEMP => hash_key_top(s, |pk: Seq<u8>| spec_address_temp(pk)),
        OpCodes::OP_CHECKSIG => checksig_top(s),
        OpCodes::OP_CHECKSIGVERIFY => then_verify(checksig_top(s)),
        OpCodes::OP_CHECKMULTISIG => checkmultisig_top(s),
        OpCodes::OP_CHECKMULTISIGVERIFY => then_verify(checkmultisig_top(s)),
        _ => None,
    }
}

/// The opcodes that move, copy or drop items.
pub open spec fn is_stack_op(op: OpCodes) -> bool {
    match op {
        OpCodes::OP_TOALTSTACK
        | OpCodes::OP_FROMALTSTACK
        | OpCodes::OP_2DROP
        | OpCodes::OP_2DUP
        | OpCodes::OP_3DUP
        | OpCodes::OP_2OVER
        | OpCodes::OP_2ROT
        | OpCodes::OP_2SWAP
        | OpCodes::OP_IFDUP
        | OpCodes::OP_DEPTH
        | OpCodes::OP_DROP
        | OpCodes::OP_DUP
        | OpCodes::OP_NIP
        | OpCodes::OP_OVER
        | OpCodes::OP_PICK
        | OpCodes::OP_ROLL
        | OpCodes::OP_ROT
        | OpCodes::OP_SWAP
        | OpCodes::OP_TUCK => true,
        _ => false,
    }
}

/// The opcodes that work on texts.
pub open spec fn is_splice_op(op: OpCodes) -> bool {
    op == OpCodes::OP_CAT || op == OpCodes::OP_SUBSTR || op == OpCodes::OP_LEFT || op
        == OpCodes::OP_RIGHT || op == OpCodes::OP_SIZE
}

/// The stacks after an opcode, or `None` where the opcode fails. The opcodes of
/// conditional execution are no part of this: they act on the stack of conditions.
pub open spec fn exec_op(op: OpCodes, s: StackState) -> Option<StackState> {
    if const_value(op) is Some || is_unary_op(op) || is_binary_op(op) {
        exec_numeric(op, s)
    } else if is_stack_op(op) {
        exec_stack_op(op, s)
    } else if is_splice_op(op) {
        exec_splice(op, s)
    } else {
        match op {
            OpCodes::OP_NOP => Some(s),
            OpCodes::OP_CREATE => Some(s),
            OpCodes::OP_VERIFY => verify_top(s),
            OpCodes::OP_RETURN => None,
            OpCodes::OP_EQUAL => equal_top(s),
            OpCodes::OP_EQUALVERIFY => then_verify(equal_top(s)),
            OpCodes::OP_NUMEQUALVERIFY => then_verify(exec_numeric(OpCodes::OP_NUMEQUAL, s)),
            OpCodes::OP_WITHIN => {
                let m = s.main;
                let n = m.len() as int;
                if n >= 3 && m[n - 1] is Num && m[n - 2] is Num && m[n - 3] is Num {
                    Some(
                        StackState {
                            main: m.subrange(0, n - 3).push(
                                Item::Num(
                                    truth(
                                        m[n - 2]->Num_0 <= m[n - 3]->Num_0 && m[n - 3]->Num_0
                                            < m[n - 1]->Num_0,
                                    ),
                                ),
                            ),
                            alt: s.alt,
                        },
                    )
                } else {
                    None
                }
            },
            _ => exec_crypto(op, s),
        }
    }
}

/// The stacks without the verdict that an opcode left on top; `pre` where the opcode
/// itself failed.
pub open spec fn verdict_dropped(r: Option<StackState>, pre: StackState) -> StackState {
    match r {
        Some(s) => StackState { main: s.main.drop_last(), alt: s.alt },
        None => pre,
    }
}

/// The stacks after an opcode that failed. The verifying opcodes consume what they
/// verify even where the verdict is false; any other opcode leaves the stacks as they
/// were.
pub open spec fn after_failure(op: OpCodes, pre: StackState) -> StackState {
    match op {
        OpCodes::OP_VERIFY => if pre.main.len() >= 1 {
            StackState { main: pre.main.drop_last(), alt: pre.alt }
        } else {
            pre
        },
        OpCodes::OP_EQUALVERIFY => verdict_dropped(equal_top(pre), pre),
        OpCodes::OP_NUMEQUALVERIFY => verdict_dropped(
            exec_numeric(OpCodes::OP_NUMEQUAL, pre),
            pre,
        ),
        OpCodes::OP_CHECKSIGVERIFY => verdict_dropped(checksig_top(pre), pre),
        OpCodes::OP_CHECKMULTISIGVERIFY => verdict_dropped(checkmultisig_top(pre), pre),
        _ => pre,
    }
}

/// What a handler of `op` owes: it succeeds exactly where `exec_op` gives a state, and
/// then leaves the stacks in that state; where it fails it leaves them as
/// `after_failure` says.
pub open spec fn handler_post(op: OpCodes, pre: StackState, ok: bool, post: StackState) -> bool {
    &&& ok == exec_op(op, pre) is Some
    &&& ok ==> post == exec_op(op, pre)->0
    &&& !ok ==> post == after_failure(op, pre)
}

} // verus!
