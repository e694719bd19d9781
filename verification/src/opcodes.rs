//! Opcodes and the entries a script or a stack is made of.

use vstd::prelude::*;
use crate::crypto::{PublicKey, Signature};
use crate::constants::{ED25519_PUBLIC_KEY_LEN, ED25519_SIGNATURE_LEN, MAX_SCRIPT_ITEM_SIZE, NUM_SIZE};

verus! {

/// The operations of the script language.
#[allow(non_camel_case_types)]
#[derive(Clone, Copy, Debug, PartialEq, Eq, Structural, PartialOrd, Ord, Hash)]
pub enum OpCodes {
    OP_0,
    OP_1,
    OP_2,
    OP_3,
    OP_4,
    OP_5,
    OP_6,
    OP_7,
    OP_8,
    OP_9,
    OP_10,
    OP_11,
    OP_12,
    OP_13,
    OP_14,
    OP_15,
    OP_16,
    OP_NOP,
    OP_IF,
    OP_NOTIF,
    OP_ELSE,
    OP_ENDIF,
    OP_VERIFY,
    OP_RETURN,
    OP_TOALTSTACK,
    OP_FROMALTSTACK,
    OP_2DROP,
    OP_2DUP,
    OP_3DUP,
    OP_2OVER,
    OP_2ROT,
    OP_2SWAP,
    OP_IFDUP,
    OP_DEPTH,
    OP_DROP,
    OP_DUP,
    OP_NIP,
    OP_OVER,
    OP_PICK,
    OP_ROLL,
    OP_ROT,
    OP_SWAP,
    OP_TUCK,
    OP_CAT,
    OP_SUBSTR,
    OP_LEFT,
    OP_RIGHT,
    OP_SIZE,
    OP_INVERT,
    OP_AND,
    OP_OR,
    OP_XOR,
    OP_EQUAL,
    OP_EQUALVERIFY,
    OP_1ADD,
    OP_1SUB,
    OP_2MUL,
    OP_2DIV,
    OP_NOT,
    OP_0NOTEQUAL,
    OP_ADD,
    OP_SUB,
    OP_MUL,
    OP_DIV,
    OP_MOD,
    OP_LSHIFT,
    OP_RSHIFT,
    OP_BOOLAND,
    OP_BOOLOR,
    OP_NUMEQUAL,
    OP_NUMEQUALVERIFY,
    OP_NUMNOTEQUAL,
    OP_LESSTHAN,
    OP_GREATERTHAN,
    OP_LESSTHANOREQUAL,
    OP_GREATERTHANOREQUAL,
    OP_MIN,
    OP_MAX,
    OP_WITHIN,
    OP_SHA3,
    OP_HASH256,
    OP_HASH256_V0,
    OP_HASH256_TEMP,
    OP_CHECKSIG,
    OP_CHECKSIGVERIFY,
    OP_CHECKMULTISIG,
    OP_CHECKMULTISIGVERIFY,
    OP_CREATE,
}

/// The single byte that stands for an opcode on the wire.
pub open spec fn opcode_number(op: OpCodes) -> u8 {
    match op {
        OpCodes::OP_0 => 0,
        OpCodes::OP_1 => 1,
        OpCodes::OP_2 => 2,
        OpCodes::OP_3 => 3,
        OpCodes::OP_4 => 4,
        OpCodes::OP_5 => 5,
        OpCodes::OP_6 => 6,
        OpCodes::OP_7 => 7,
        OpCodes::OP_8 => 8,
        OpCodes::OP_9 => 9,
        OpCodes::OP_10 => 10,
        OpCodes::OP_11 => 11,
        OpCodes::OP_12 => 12,
        OpCodes::OP_13 => 13,
        OpCodes::OP_14 => 14,
        OpCodes::OP_15 => 15,
        OpCodes::OP_16 => 16,
        OpCodes::OP_NOP => 17,
        OpCodes::OP_IF => 18,
        OpCodes::OP_NOTIF => 19,
        OpCodes::OP_ELSE => 20,
        OpCodes::OP_ENDIF => 21,
        OpCodes::OP_VERIFY => 22,
        OpCodes::OP_RETURN => 23,
        OpCodes::OP_TOALTSTACK => 24,
        OpCodes::OP_FROMALTSTACK => 25,
        OpCodes::OP_2DROP => 26,
        OpCodes::OP_2DUP => 27,
        OpCodes::OP_3DUP => 28,
        OpCodes::OP_2OVER => 29,
        OpCodes::OP_2ROT => 30,
        OpCodes::OP_2SWAP => 31,
        OpCodes::OP_IFDUP => 32,
        OpCodes::OP_DEPTH => 33,
        OpCodes::OP_DROP => 34,
        OpCodes::OP_DUP => 35,
        OpCodes::OP_NIP => 36,
        OpCodes::OP_OVER => 37,
        OpCodes::OP_PICK => 38,
        OpCodes::OP_ROLL => 39,
        OpCodes::OP_ROT => 40,
        OpCodes::OP_SWAP => 41,
        OpCodes::OP_TUCK => 42,
        OpCodes::OP_CAT => 43,
        OpCodes::OP_SUBSTR => 44,
        OpCodes::OP_LEFT => 45,
        OpCodes::OP_RIGHT => 46,
        OpCodes::OP_SIZE => 47,
        OpCodes::OP_INVERT => 48,
        OpCodes::OP_AND => 49,
        OpCodes::OP_OR => 50,
        OpCodes::OP_XOR => 51,
        OpCodes::OP_EQUAL => 52,
        OpCodes::OP_EQUALVERIFY => 53,
        OpCodes::OP_1ADD => 54,
        OpCodes::OP_1SUB => 55,
        OpCodes::OP_2MUL => 56,
        OpCodes::OP_2DIV => 57,
        OpCodes::OP_NOT => 58,
        OpCodes::OP_0NOTEQUAL => 59,
        OpCodes::OP_ADD => 60,
        OpCodes::OP_SUB => 61,
        OpCodes::OP_MUL => 62,
        OpCodes::OP_DIV => 63,
        OpCodes::OP_MOD => 64,
        OpCodes::OP_LSHIFT => 65,
        OpCodes::OP_RSHIFT => 66,
        OpCodes::OP_BOOLAND => 67,
        OpCodes::OP_BOOLOR => 68,
        OpCodes::OP_NUMEQUAL => 69,
        OpCodes::OP_NUMEQUALVERIFY => 70,
        OpCodes::OP_NUMNOTEQUAL => 71,
        OpCodes::OP_LESSTHAN => 72,
        OpCodes::OP_GREATERTHAN => 73,
        OpCodes::OP_LESSTHANOREQUAL => 74,
        OpCodes::OP_GREATERTHANOREQUAL => 75,
        OpCodes::OP_MIN => 76,
        OpCodes::OP_MAX => 77,
        OpCodes::OP_WITHIN => 78,
        OpCodes::OP_SHA3 => 79,
        OpCodes::OP_HASH256 => 80,
        OpCodes::OP_HASH256_V0 => 81,
        OpCodes::OP_HASH256_TEMP => 82,
        OpCodes::OP_CHECKSIG => 83,
        OpCodes::OP_CHECKSIGVERIFY => 84,
        OpCodes::OP_CHECKMULTISIG => 85,
        OpCodes::OP_CHECKMULTISIGVERIFY => 86,
        OpCodes::OP_CREATE => 87,
    }
}

impl OpCodes {
    /// The single byte that stands for this opcode on the wire.
    pub fn to_byte(&self) -> (b: u8)
        ensures
            b == opcode_number(*self),
    {
        match self {
        OpCodes::OP_0 => 0,
        OpCodes::OP_1 => 1,
        OpCodes::OP_2 => 2,
        OpCodes::OP_3 => 3,
        OpCodes::OP_4 => 4,
        OpCodes::OP_5 => 5,
        OpCodes::OP_6 => 6,
        OpCodes::OP_7 => 7,
        OpCodes::OP_8 => 8,
        OpCodes::OP_9 => 9,
        OpCodes::OP_10 => 10,
        OpCodes::OP_11 => 11,
        OpCodes::OP_12 => 12,
        OpCodes::OP_13 => 13,
        OpCodes::OP_14 => 14,
        OpCodes::OP_15 => 15,
        OpCodes::OP_16 => 16,
        OpCodes::OP_NOP => 17,
        OpCodes::OP_IF => 18,
        OpCodes::OP_NOTIF => 19,
        OpCodes::OP_ELSE => 20,
        OpCodes::OP_ENDIF => 21,
        OpCodes::OP_VERIFY => 22,
        OpCodes::OP_RETURN => 23,
        OpCodes::OP_TOALTSTACK => 24,
        OpCodes::OP_FROMALTSTACK => 25,
        OpCodes::OP_2DROP => 26,
        OpCodes::OP_2DUP => 27,
        OpCodes::OP_3DUP => 28,
        OpCodes::OP_2OVER => 29,
        OpCodes::OP_2ROT => 30,
        OpCodes::OP_2SWAP => 31,
        OpCodes::OP_IFDUP => 32,
        OpCodes::OP_DEPTH => 33,
        OpCodes::OP_DROP => 34,
        OpCodes::OP_DUP => 35,
        OpCodes::OP_NIP => 36,
        OpCodes::OP_OVER => 37,
        OpCodes::OP_PICK => 38,
        OpCodes::OP_ROLL => 39,
        OpCodes::OP_ROT => 40,
        OpCodes::OP_SWAP => 41,
        OpCodes::OP_TUCK => 42,
        OpCodes::OP_CAT => 43,
        OpCodes::OP_SUBSTR => 44,
        OpCodes::OP_LEFT => 45,
        OpCodes::OP_RIGHT => 46,
        OpCodes::OP_SIZE => 47,
        OpCodes::OP_INVERT => 48,
        OpCodes::OP_AND => 49,
        OpCodes::OP_OR => 50,
        OpCodes::OP_XOR => 51,
        OpCodes::OP_EQUAL => 52,
        OpCodes::OP_EQUALVERIFY => 53,
        OpCodes::OP_1ADD => 54,
        OpCodes::OP_1SUB => 55,
        OpCodes::OP_2MUL => 56,
        OpCodes::OP_2DIV => 57,
        OpCodes::OP_NOT => 58,
        OpCodes::OP_0NOTEQUAL => 59,
        OpCodes::OP_ADD => 60,
        OpCodes::OP_SUB => 61,
        OpCodes::OP_MUL => 62,
        OpCodes::OP_DIV => 63,
        OpCodes::OP_MOD => 64,
        OpCodes::OP_LSHIFT => 65,
        OpCodes::OP_RSHIFT => 66,
        OpCodes::OP_BOOLAND => 67,
        OpCodes::OP_BOOLOR => 68,
        OpCodes::OP_NUMEQUAL => 69,
        OpCodes::OP_NUMEQUALVERIFY => 70,
        OpCodes::OP_NUMNOTEQUAL => 71,
        OpCodes::OP_LESSTHAN => 72,
        OpCodes::OP_GREATERTHAN => 73,
        OpCodes::OP_LESSTHANOREQUAL => 74,
        OpCodes::OP_GREATERTHANOREQUAL => 75,
        OpCodes::OP_MIN => 76,
        OpCodes::OP_MAX => 77,
        OpCodes::OP_WITHIN => 78,
        OpCodes::OP_SHA3 => 79,
        OpCodes::OP_HASH256 => 80,
        OpCodes::OP_HASH256_V0 => 81,
        OpCodes::OP_HASH256_TEMP => 82,
        OpCodes::OP_CHECKSIG => 83,
        OpCodes::OP_CHECKSIGVERIFY => 84,
        OpCodes::OP_CHECKMULTISIG => 85,
        OpCodes::OP_CHECKMULTISIGVERIFY => 86,
        OpCodes::OP_CREATE => 87,
        }
    }

    /// The opcode that a byte stands for on the wire; `None` for a byte that stands for
    /// none.
    pub fn from_byte(b: u8) -> (r: Option<OpCodes>)
        ensures
            r is Some ==> opcode_number(r->0) == b,
            r is None ==> forall|op: OpCodes| opcode_number(op) != b,
    {
        match b {
            0 => Some(OpCodes::OP_0),
            1 => Some(OpCodes::OP_1),
            2 => Some(OpCodes::OP_2),
            3 => Some(OpCodes::OP_3),
            4 => Some(OpCodes::OP_4),
            5 => Some(OpCodes::OP_5),
            6 => Some(OpCodes::OP_6),
            7 => Some(OpCodes::OP_7),
            8 => Some(OpCodes::OP_8),
            9 => Some(OpCodes::OP_9),
            10 => Some(OpCodes::OP_10),
            11 => Some(OpCodes::OP_11),
            12 => Some(OpCodes::OP_12),
            13 => Some(OpCodes::OP_13),
            14 => Some(OpCodes::OP_14),
            15 => Some(OpCodes::OP_15),
            16 => Some(OpCodes::OP_16),
            17 => Some(OpCodes::OP_NOP),
            18 => Some(OpCodes::OP_IF),
            19 => Some(OpCodes::OP_NOTIF),
            20 => Some(OpCodes::OP_ELSE),
            21 => Some(OpCodes::OP_ENDIF),
            22 => Some(OpCodes::OP_VERIFY),
            23 => Some(OpCodes::OP_RETURN),
            24 => Some(OpCodes::OP_TOALTSTACK),
            25 => Some(OpCodes::OP_FROMALTSTACK),
            26 => Some(OpCodes::OP_2DROP),
            27 => Some(OpCodes::OP_2DUP),
            28 => Some(OpCodes::OP_3DUP),
            29 => Some(OpCodes::OP_2OVER),
            30 => Some(OpCodes::OP_2ROT),
            31 => Some(OpCodes::OP_2SWAP),
            32 => Some(OpCodes::OP_IFDUP),
            33 => Some(OpCodes::OP_DEPTH),
            34 => Some(OpCodes::OP_DROP),
            35 => Some(OpCodes::OP_DUP),
            36 => Some(OpCodes::OP_NIP),
            37 => Some(OpCodes::OP_OVER),
            38 => Some(OpCodes::OP_PICK),
            39 => Some(OpCodes::OP_ROLL),
            40 => Some(OpCodes::OP_ROT),
            41 => Some(OpCodes::OP_SWAP),
            42 => Some(OpCodes::OP_TUCK),
            43 => Some(OpCodes::OP_CAT),
            44 => Some(OpCodes::OP_SUBSTR),
            45 => Some(OpCodes::OP_LEFT),
            46 => Some(OpCodes::OP_RIGHT),
            47 => Some(OpCodes::OP_SIZE),
            48 => Some(OpCodes::OP_INVERT),
            49 => Some(OpCodes::OP_AND),
            50 => Some(OpCodes::OP_OR),
            51 => Some(OpCodes::OP_XOR),
            52 => Some(OpCodes::OP_EQUAL),
            53 => Some(OpCodes::OP_EQUALVERIFY),
            54 => Some(OpCodes::OP_1ADD),
            55 => Some(OpCodes::OP_1SUB),
            56 => Some(OpCodes::OP_2MUL),
            57 => Some(OpCodes::OP_2DIV),
            58 => Some(OpCodes::OP_NOT),
            59 => Some(OpCodes::OP_0NOTEQUAL),
            60 => Some(OpCodes::OP_ADD),
            61 => Some(OpCodes::OP_SUB),
            62 => Some(OpCodes::OP_MUL),
            63 => Some(OpCodes::OP_DIV),
            64 => Some(OpCodes::OP_MOD),
            65 => Some(OpCodes::OP_LSHIFT),
            66 => Some(OpCodes::OP_RSHIFT),
            67 => Some(OpCodes::OP_BOOLAND),
            68 => Some(OpCodes::OP_BOOLOR),
            69 => Some(OpCodes::OP_NUMEQUAL),
            70 => Some(OpCodes::OP_NUMEQUALVERIFY),
            71 => Some(OpCodes::OP_NUMNOTEQUAL),
            72 => Some(OpCodes::OP_LESSTHAN),
            73 => Some(OpCodes::OP_GREATERTHAN),
            74 => Some(OpCodes::OP_LESSTHANOREQUAL),
            75 => Some(OpCodes::OP_GREATERTHANOREQUAL),
            76 => Some(OpCodes::OP_MIN),
            77 => Some(OpCodes::OP_MAX),
            78 => Some(OpCodes::OP_WITHIN),
            79 => Some(OpCodes::OP_SHA3),
            80 => Some(OpCodes::OP_HASH256),
            81 => Some(OpCodes::OP_HASH256_V0),
            82 => Some(OpCodes::OP_HASH256_TEMP),
            83 => Some(OpCodes::OP_CHECKSIG),
            84 => Some(OpCodes::OP_CHECKSIGVERIFY),
            85 => Some(OpCodes::OP_CHECKMULTISIG),
            86 => Some(OpCodes::OP_CHECKMULTISIGVERIFY),
            87 => Some(OpCodes::OP_CREATE),
            _ => None,
        }
    }

    /// Whether this opcode steers conditional execution.
    pub fn is_conditional(&self) -> (r: bool)
        ensures
            r == is_conditional_op(*self),
    {
        match self {
            OpCodes::OP_IF | OpCodes::OP_NOTIF | OpCodes::OP_ELSE | OpCodes::OP_ENDIF => true,
            _ => false,
        }
    }
}

/// Two opcodes with the same number are the same opcode.
pub proof fn lemma_opcode_number_injective(a: OpCodes, b: OpCodes)
    requires
        opcode_number(a) == opcode_number(b),
    ensures
        a == b,
{
}

/// The opcodes that are interpreted even in a branch that is not executing.
pub open spec fn is_conditional_op(op: OpCodes) -> bool {
    op == OpCodes::OP_IF || op == OpCodes::OP_NOTIF || op == OpCodes::OP_ELSE || op
        == OpCodes::OP_ENDIF
}

/// An entry of a script or of a stack.
#[derive(Clone, Debug, PartialEq, Eq, PartialOrd, Ord, Hash)]
pub enum StackEntry {
    Op(OpCodes),
    Signature(Signature),
    PubKey(PublicKey),
    PubKeyHash(String),
    Num(usize),
    Bytes(String),
}

/// The mathematical value of a `StackEntry`.
pub enum Item {
    Op(OpCodes),
    Signature(Seq<u8>),
    PubKey(Seq<u8>),
    PubKeyHash(Seq<char>),
    Num(usize),
    Bytes(Seq<char>),
}

/// The number of bytes of a text in UTF-8.
pub open spec fn text_size(s: Seq<char>) -> nat {
    vstd::utf8::encode_utf8(s).len()
}

impl View for StackEntry {
    type V = Item;

    open spec fn view(&self) -> Item {
        match self {
            StackEntry::Op(op) => Item::Op(*op),
            StackEntry::Signature(s) => Item::Signature(s@),
            StackEntry::PubKey(p) => Item::PubKey(p@),
            StackEntry::PubKeyHash(s) => Item::PubKeyHash(s@),
            StackEntry::Num(n) => Item::Num(*n),
            StackEntry::Bytes(s) => Item::Bytes(s@),
        }
    }
}

/// The values of a sequence of entries.
pub open spec fn items(v: Seq<StackEntry>) -> Seq<Item> {
    v.map_values(|e: StackEntry| e@)
}

/// Whether an item may be pushed on a stack: no opcode, and no text over the item size.
pub open spec fn pushable(it: Item) -> bool {
    match it {
        Item::Op(_) => false,
        Item::PubKeyHash(s) => text_size(s) <= MAX_SCRIPT_ITEM_SIZE,
        Item::Bytes(s) => text_size(s) <= MAX_SCRIPT_ITEM_SIZE,
        _ => true,
    }
}

/// The number of bytes an item contributes to the size of a script.
pub open spec fn item_size(it: Item) -> nat {
    match it {
        Item::Op(_) => 1,
        Item::Signature(_) => ED25519_SIGNATURE_LEN as nat,
        Item::PubKey(_) => ED25519_PUBLIC_KEY_LEN as nat,
        Item::PubKeyHash(s) => text_size(s),
        Item::Bytes(s) => text_size(s),
        Item::Num(_) => NUM_SIZE as nat,
    }
}

/// Byte-wise comparison of two arrays of the same length.
fn bytes32_eq(a: &[u8; 32], b: &[u8; 32]) -> (r: bool)
    ensures
        r == (a@ == b@),
{
    let mut i: usize = 0;
    while i < 32
        invariant
            i <= 32,
            forall|j: int| 0 <= j < i ==> a@[j] == b@[j],
        decreases 32 - i,
    {
        if a[i] != b[i] {
            return false;
        }
        i += 1;
    }
    assert(a@ =~= b@);
    true
}

/// Byte-wise comparison of two arrays of the same length.
fn bytes64_eq(a: &[u8; 64], b: &[u8; 64]) -> (r: bool)
    ensures
        r == (a@ == b@),
{
    let mut i: usize = 0;
    while i < 64
        invariant
            i <= 64,
            forall|j: int| 0 <= j < i ==> a@[j] == b@[j],
        decreases 64 - i,
    {
        if a[i] != b[i] {
            return false;
        }
        i += 1;
    }
    assert(a@ =~= b@);
    true
}

/// The number of bytes of a text.
pub fn text_len(s: &String) -> (n: usize)
    ensures
        n == text_size(s@),
{
    s.as_str().as_bytes().len()
}

impl StackEntry {
    /// A copy of this entry.
    pub fn duplicate(&self) -> (r: StackEntry)
        ensures
            r@ == self@,
    {
        match self {
            StackEntry::Op(op) => StackEntry::Op(*op),
            StackEntry::Signature(s) => StackEntry::Signature(*s),
            StackEntry::PubKey(p) => StackEntry::PubKey(*p),
            StackEntry::PubKeyHash(s) => StackEntry::PubKeyHash(s.clone()),
            StackEntry::Num(n) => StackEntry::Num(*n),
            StackEntry::Bytes(s) => StackEntry::Bytes(s.clone()),
        }
    }

    /// Structural equality: same kind of entry, same content.
    pub fn same_as(&self, other: &StackEntry) -> (r: bool)
        ensures
            r == (self@ == other@),
    {
        match (self, other) {
            (StackEntry::Op(a), StackEntry::Op(b)) => *a == *b,
            (StackEntry::Signature(a), StackEntry::Signature(b)) => bytes64_eq(&a.bytes, &b.bytes),
            (StackEntry::PubKey(a), StackEntry::PubKey(b)) => bytes32_eq(&a.bytes, &b.bytes),
            (StackEntry::PubKeyHash(a), StackEntry::PubKeyHash(b)) => *a == *b,
            (StackEntry::Num(a), StackEntry::Num(b)) => *a == *b,
            (StackEntry::Bytes(a), StackEntry::Bytes(b)) => *a == *b,
            _ => false,
        }
    }

    /// Whether this entry may be pushed on a stack.
    pub fn is_pushable(&self) -> (r: bool)
        ensures
            r == pushable(self@),
    {
        match self {
            StackEntry::Op(_) => false,
            StackEntry::PubKeyHash(s) => text_len(s) <= MAX_SCRIPT_ITEM_SIZE as usize,
            StackEntry::Bytes(s) => text_len(s) <= MAX_SCRIPT_ITEM_SIZE as usize,
            _ => true,
        }
    }
}

} // verus!
