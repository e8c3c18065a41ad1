//! One row of a code attribute's exception table: four two-byte words. The
//! table is decoded and kept for format fidelity, but the interpreter never
//! consults it (exception dispatch is out of scope).
use vstd::prelude::*;

use crate::VmError;
use crate::cursor::{File, be_u16};
use crate::parse_list::{spec_parse_list, lemma_parse_list_snoc, lemma_parse_list_fail};

verus! {

broadcast use vstd::std_specs::control_flow::group_control_flow_axioms, crate::cursor::lemma_file_bounds;

/// A protected code range, its handler, and the catch type (0 for any).
#[derive(Clone, Copy, Debug)]
pub struct ExceptionTableEntry {
    pub start_pc: u16,
    pub end_pc: u16,
    pub handler_pc: u16,
    pub catch_type: u16,
}

impl ExceptionTableEntry {
    pub fn get_start_pc(&self) -> (r: u16)
        ensures
            r == self.start_pc,
    {
        self.start_pc
    }

    pub fn get_end_pc(&self) -> (r: u16)
        ensures
            r == self.end_pc,
    {
        self.end_pc
    }

    pub fn get_handler_pc(&self) -> (r: u16)
        ensures
            r == self.handler_pc,
    {
        self.handler_pc
    }

    pub fn get_catch_type(&self) -> (r: u16)
        ensures
            r == self.catch_type,
    {
        self.catch_type
    }
}

/// Decodes one table row of `d` at `i`: four big-endian words.
pub open spec fn spec_parse_exc(d: Seq<u8>, i: int) -> Option<(ExceptionTableEntry, int)> {
    if 0 <= i && i + 8 <= d.len() {
        Some(
            (
                ExceptionTableEntry {
                    start_pc: be_u16(d, i) as u16,
                    end_pc: be_u16(d, i + 2) as u16,
                    handler_pc: be_u16(d, i + 4) as u16,
                    catch_type: be_u16(d, i + 6) as u16,
                },
                i + 8,
            ),
        )
    } else {
        None
    }
}

/// `spec_parse_exc` as a function value, for the list combinator.
pub open spec fn exc_parser() -> spec_fn(Seq<u8>, int) -> Option<(ExceptionTableEntry, int)> {
    |dd: Seq<u8>, j: int| spec_parse_exc(dd, j)
}

/// Decodes `k` table rows back to back.
pub open spec fn spec_parse_excs(d: Seq<u8>, i: int, k: nat) -> Option<
    (Seq<ExceptionTableEntry>, int),
> {
    spec_parse_list(d, i, k, exc_parser())
}

/// Decodes one table row at the cursor.
pub fn parse_file(file: &mut File) -> (r: Result<ExceptionTableEntry, VmError>)
    ensures
        final(file)@.data == old(file)@.data,
        spec_parse_exc(old(file)@.data, old(file)@.pointer) matches Some((v, end)) ==> {
            &&& r matches Ok(c) && c == v
            &&& final(file)@.pointer == end
        },
        spec_parse_exc(old(file)@.data, old(file)@.pointer) is None ==> (r matches Err(e) && e
            == VmError::MalformedInput),
{
    let start_pc = file.get_u2()?;
    let end_pc = file.get_u2()?;
    let handler_pc = file.get_u2()?;
    let catch_type = file.get_u2()?;
    Ok(ExceptionTableEntry { start_pc, end_pc, handler_pc, catch_type })
}

/// Decodes `range` table rows.
pub fn parse_range(file: &mut File, range: usize) -> (r: Result<
    Vec<ExceptionTableEntry>,
    VmError,
>)
    ensures
        final(file)@.data == old(file)@.data,
        spec_parse_excs(old(file)@.data, old(file)@.pointer, range as nat) matches Some(
            (s, end),
        ) ==> {
            &&& r matches Ok(v) && v@ == s
            &&& final(file)@.pointer == end
        },
        spec_parse_excs(old(file)@.data, old(file)@.pointer, range as nat) is None ==> (r matches Err(
            e,
        ) && e == VmError::MalformedInput),
{
    let ghost d = file@.data;
    let ghost i0 = file@.pointer;
    let mut out: Vec<ExceptionTableEntry> = Vec::new();
    let mut n: usize = 0;
    while n < range
        invariant
            n <= range,
            d == old(file)@.data,
            i0 == old(file)@.pointer,
            file@.data == d,
            spec_parse_excs(d, i0, n as nat) == Some((out@, file@.pointer)),
        decreases range - n,
    {
        let ghost p = file@.pointer;
        match parse_file(file) {
            Ok(e) => {
                proof {
                    assert(exc_parser()(d, p) == spec_parse_exc(d, p));
                    lemma_parse_list_snoc(d, i0, n as nat, exc_parser());
                }
                out.push(e);
                n = n + 1;
            },
            Err(er) => {
                proof {
                    assert(exc_parser()(d, p) == spec_parse_exc(d, p));
                    lemma_parse_list_fail(d, i0, n as nat, range as nat, exc_parser());
                }
                return Err(er);
            },
        }
    }
    Ok(out)
}

} // verus!
