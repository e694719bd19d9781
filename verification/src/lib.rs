//! Stack-based transaction script engine: the evaluator, the script templates,
//! and the predicates that decide whether a transaction may spend its inputs.

pub mod constants;
pub mod crypto;
pub mod addresses;
pub mod opcodes;
pub mod stacks;
pub mod semantics;
pub mod machine;
pub mod interface_ops;
pub mod lang;
pub mod primitives;
pub mod asset_values;
pub mod encoding;
pub mod script_utils;
pub mod druid_utils;
pub mod laws;
