//! ACPI Machine Language: the byte stream, the error type, the parsers,
//! the interpreter's values and variable tree, the arithmetic and
//! conversions of its operators, and how fields reach the hardware.

pub mod aml_variable;
pub mod data_object;
pub mod evaluator;
pub mod expression_evaluator;
pub mod expression_opcode;
pub mod field_access;
pub mod interpreter;
pub mod method_evaluation;
pub mod method_table;
pub mod name_object;
pub mod named_object;
pub mod named_object_evaluation;
pub mod namespace_search;
pub mod namespace_modifier_object;
pub mod notify;
pub mod opcode;
pub mod statement_opcode;
pub mod stream;
pub mod super_name;
pub mod term_object;
pub mod variable_tree;

use vstd::prelude::*;

verus! {

/// The errors of the AML parser and interpreter.
#[derive(Debug)]
pub enum AmlError {
    AccessOutOfRange,
    InvalidType,
    InvalidName(name_object::NameString),
    InvalidMethodName(name_object::NameString),
    InvalidOperation,
    MutexError,
    ObjectTreeError,
    NestedSearch,
    UnsupportedType,
}

} // verus!
