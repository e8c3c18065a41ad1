//! A single-class bytecode virtual machine: a big-endian cursor over a class
//! binary, a decoder for the class wire format (constant pool, fields,
//! methods, attributes), typed constant-pool resolvers, and an interpreter
//! over an operand stack, local-variable slots and a dispatch table built
//! from instruction modules.
use vstd::prelude::*;

pub mod attribute_info;
pub mod class_file;
pub mod code_attribute;
pub mod const_type;
pub mod cursor;
pub mod exception_table_entry;
pub mod field_info;
pub mod integer_module;
pub mod jvm;
pub mod laws;
pub mod method_info;
pub mod parse_list;
pub mod static_module;

verus! {

/// How a run of the machine can fail. Every fault is fatal: decoding and
/// execution stop and the error is handed to the caller.
#[derive(Clone, Copy, PartialEq, Eq, Structural, Debug)]
pub enum VmError {
    /// The input bytes do not form what was expected: an unknown constant
    /// tag, a short read, a constant-pool entry of the wrong kind, or a
    /// descriptor character outside the supported alphabet.
    MalformedInput,
    /// The resolved class, member or operand combination lies outside the
    /// supported set: a field other than the well-known output stream, a
    /// virtual call other than the well-known println target, an array
    /// parameter in a method descriptor.
    UnsupportedOperation,
    /// The interpreter's own invariants were broken: a pop from an empty
    /// operand stack, an operand or local slot of the wrong kind, an
    /// out-of-range pool or local index, an opcode with no handler, an
    /// undefined arithmetic case (division by zero, or the one quotient
    /// that does not fit a 32-bit integer), a conflicting instruction
    /// registration, or a run that exhausts the machine's step budget.
    InvariantViolation,
}

/// What the caller hands the runner: the name of the class binary to load.
pub struct Config {
    pub filename: String,
}

impl Config {
    /// The first argument is the program's own name; the second is the
    /// filename of the class binary.
    pub fn new(args: &[String]) -> (r: Result<Config, &'static str>)
        ensures
            args@.len() >= 2 ==> (r matches Ok(c) && c.filename@ == args@[1]@),
            args@.len() < 2 ==> (r matches Err(m) && m@ == "not enough arguments"@),
    {
        if args.len() < 2 {
            return Err("not enough arguments");
        }
        let filename = args[1].clone();
        Ok(Config { filename })
    }
}

} // verus!
