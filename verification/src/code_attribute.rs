//! The decoded form of a code attribute's payload: stack and local sizing,
//! the raw instruction bytes, the exception table, and nested attributes.
use vstd::prelude::*;

use crate::VmError;
use crate::attribute_info;
use crate::attribute_info::{AttributeInfo, AttributeInfoView, spec_parse_attrs};
use crate::cursor::{File, be_u16, be_u32};
use crate::exception_table_entry;
use crate::exception_table_entry::{ExceptionTableEntry, spec_parse_excs};

verus! {

broadcast use vstd::std_specs::control_flow::group_control_flow_axioms, crate::cursor::lemma_file_bounds;

/// A method body: sizing, instruction bytes, exception table, attributes.
#[derive(Debug)]
pub struct CodeAttribute {
    max_stack: u16,
    max_locals: u16,
    code: Vec<u8>,
    exception_table: Vec<ExceptionTableEntry>,
    attributes: Vec<AttributeInfo>,
}

/// The mathematical content of a code attribute.
pub struct CodeAttributeView {
    pub max_stack: u16,
    pub max_locals: u16,
    pub code: Seq<u8>,
    pub exception_table: Seq<ExceptionTableEntry>,
    pub attributes: Seq<AttributeInfoView>,
}

impl View for CodeAttribute {
    type V = CodeAttributeView;

    closed spec fn view(&self) -> CodeAttributeView {
        CodeAttributeView {
            max_stack: self.max_stack,
            max_locals: self.max_locals,
            code: self.code@,
            exception_table: self.exception_table@,
            attributes: self.attributes@.map_values(|a: AttributeInfo| a@),
        }
    }
}

impl CodeAttribute {
    pub fn get_code(&self) -> (r: Vec<u8>)
        ensures
            r@ == self@.code,
    {
        let r = self.code.clone();
        proof {
            assert(r@ =~= self.code@);
        }
        r
    }

    pub fn get_max_locals(&self) -> (r: u16)
        ensures
            r == self@.max_locals,
    {
        self.max_locals
    }
}

/// Decodes a code attribute's payload at `i`: sizing words, the
/// length-prefixed instruction bytes, the exception table, and nested
/// attributes.
pub open spec fn spec_parse_code(d: Seq<u8>, i: int) -> Option<(CodeAttributeView, int)> {
    if !(0 <= i && i + 8 <= d.len() && i + 8 + be_u32(d, i + 4) <= d.len()) {
        None
    } else {
        let code_end = i + 8 + be_u32(d, i + 4);
        if !(code_end + 2 <= d.len()) {
            None
        } else {
            match spec_parse_excs(d, code_end + 2, be_u16(d, code_end) as nat) {
                None => None,
                Some((excs, p2)) => {
                    if !(p2 + 2 <= d.len()) {
                        None
                    } else {
                        match spec_parse_attrs(d, p2 + 2, be_u16(d, p2) as nat) {
                            None => None,
                            Some((attrs, end)) => Some(
                                (
                                    CodeAttributeView {
                                        max_stack: be_u16(d, i) as u16,
                                        max_locals: be_u16(d, i + 2) as u16,
                                        code: d.subrange(i + 8, code_end),
                                        exception_table: excs,
                                        attributes: attrs,
                                    },
                                    end,
                                ),
                            ),
                        }
                    }
                },
            }
        }
    }
}

/// Decodes a code attribute at the cursor.
pub fn parse_file(file: &mut File) -> (r: Result<CodeAttribute, VmError>)
    ensures
        final(file)@.data == old(file)@.data,
        spec_parse_code(old(file)@.data, old(file)@.pointer) matches Some((v, end)) ==> {
            &&& r matches Ok(c) && c@ == v
            &&& final(file)@.pointer == end
        },
        spec_parse_code(old(file)@.data, old(file)@.pointer) is None ==> (r matches Err(e) && e
            == VmError::MalformedInput),
{
    let max_stack = file.get_u2()?;
    let max_locals = file.get_u2()?;
    let code_length = file.get_u4()?;
    let code = file.get_range(code_length as usize)?;
    let exception_table_length = file.get_u2()?;
    let exception_table = exception_table_entry::parse_range(
        file,
        exception_table_length as usize,
    )?;
    let attributes_count = file.get_u2()?;
    let attributes = attribute_info::parse_range(file, attributes_count as usize)?;
    Ok(CodeAttribute { max_stack, max_locals, code, exception_table, attributes })
}

} // verus!
