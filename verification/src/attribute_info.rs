//! A generic attribute: a pool index naming it and an opaque length-prefixed
//! payload. Payloads are not decoded here; a consumer that wants the code
//! attribute reinterprets the raw bytes on demand.
use vstd::prelude::*;

use crate::VmError;
use crate::code_attribute;
use crate::code_attribute::CodeAttribute;
use crate::cursor::{File, be_u16, be_u32};
use crate::parse_list::{spec_parse_list, lemma_parse_list_snoc, lemma_parse_list_fail};

verus! {

broadcast use vstd::std_specs::control_flow::group_control_flow_axioms, crate::cursor::lemma_file_bounds;

/// An attribute's name index and its raw payload bytes.
#[derive(Debug)]
pub struct AttributeInfo {
    attribute_name_index: u16,
    info: Vec<u8>,
}

/// The mathematical content of an attribute.
pub struct AttributeInfoView {
    pub attribute_name_index: u16,
    pub info: Seq<u8>,
}

impl Clone for AttributeInfo {
    /// A deep copy with the same name index and payload bytes.
    fn clone(&self) -> (r: Self)
        ensures
            r@ == self@,
    {
        let info = self.info.clone();
        proof {
            assert(info@ =~= self.info@);
        }
        AttributeInfo { attribute_name_index: self.attribute_name_index, info }
    }
}

impl View for AttributeInfo {
    type V = AttributeInfoView;

    closed spec fn view(&self) -> AttributeInfoView {
        AttributeInfoView { attribute_name_index: self.attribute_name_index, info: self.info@ }
    }
}

impl AttributeInfo {
    pub fn get_attribute_name_index(&self) -> (r: u16)
        ensures
            r == self@.attribute_name_index,
    {
        self.attribute_name_index
    }

    /// Reinterprets the opaque payload as a code attribute, with a fresh
    /// cursor over the payload bytes.
    pub fn to_code_attribute(&self) -> (r: Result<CodeAttribute, VmError>)
        ensures
            code_attribute::spec_parse_code(self@.info, 0) matches Some((c, end)) ==> (r matches Ok(
                ca,
            ) && ca@ == c),
            code_attribute::spec_parse_code(self@.info, 0) is None ==> (r matches Err(e) && e
                == VmError::MalformedInput),
    {
        code_attribute::parse_file(&mut File::new(self.info.clone()))
    }
}

/// Decodes one attribute of `d` at `i`: name index, payload length, payload.
pub open spec fn spec_parse_attr(d: Seq<u8>, i: int) -> Option<(AttributeInfoView, int)> {
    if 0 <= i && i + 6 <= d.len() && i + 6 + be_u32(d, i + 2) <= d.len() {
        Some(
            (
                AttributeInfoView {
                    attribute_name_index: be_u16(d, i) as u16,
                    info: d.subrange(i + 6, i + 6 + be_u32(d, i + 2)),
                },
                i + 6 + be_u32(d, i + 2),
            ),
        )
    } else {
        None
    }
}

/// `spec_parse_attr` as a function value, for the list combinator.
pub open spec fn attr_parser() -> spec_fn(Seq<u8>, int) -> Option<(AttributeInfoView, int)> {
    |dd: Seq<u8>, j: int| spec_parse_attr(dd, j)
}

/// Decodes `k` attributes back to back.
pub open spec fn spec_parse_attrs(d: Seq<u8>, i: int, k: nat) -> Option<
    (Seq<AttributeInfoView>, int),
> {
    spec_parse_list(d, i, k, attr_parser())
}

/// Decodes one attribute at the cursor.
pub fn parse_file(file: &mut File) -> (r: Result<AttributeInfo, VmError>)
    ensures
        final(file)@.data == old(file)@.data,
        spec_parse_attr(old(file)@.data, old(file)@.pointer) matches Some((v, end)) ==> {
            &&& r matches Ok(c) && c@ == v
            &&& final(file)@.pointer == end
        },
        spec_parse_attr(old(file)@.data, old(file)@.pointer) is None ==> (r matches Err(e) && e
            == VmError::MalformedInput),
{
    let attribute_name_index = file.get_u2()?;
    let info_length = file.get_u4()?;
    let info = file.get_range(info_length as usize)?;
    Ok(AttributeInfo { attribute_name_index, info })
}

/// Decodes `range` attributes.
pub fn parse_range(file: &mut File, range: usize) -> (r: Result<Vec<AttributeInfo>, VmError>)
    ensures
        final(file)@.data == old(file)@.data,
        spec_parse_attrs(old(file)@.data, old(file)@.pointer, range as nat) matches Some(
            (s, end),
        ) ==> {
            &&& r matches Ok(v) && v@.map_values(|a: AttributeInfo| a@) == s
            &&& final(file)@.pointer == end
        },
        spec_parse_attrs(old(file)@.data, old(file)@.pointer, range as nat) is None ==> (r matches Err(
            e,
        ) && e == VmError::MalformedInput),
{
    let ghost d = file@.data;
    let ghost i0 = file@.pointer;
    let mut out: Vec<AttributeInfo> = Vec::new();
    let mut n: usize = 0;
    proof {
        assert(out@.map_values(|a: AttributeInfo| a@) =~= Seq::<AttributeInfoView>::empty());
    }
    while n < range
        invariant
            n <= range,
            d == old(file)@.data,
            i0 == old(file)@.pointer,
            file@.data == d,
            spec_parse_attrs(d, i0, n as nat) == Some(
                (out@.map_values(|a: AttributeInfo| a@), file@.pointer),
            ),
        decreases range - n,
    {
        let ghost p = file@.pointer;
        match parse_file(file) {
            Ok(e) => {
                proof {
                    assert(attr_parser()(d, p) == spec_parse_attr(d, p));
                    lemma_parse_list_snoc(d, i0, n as nat, attr_parser());
                    assert(out@.push(e).map_values(|a: AttributeInfo| a@) =~= out@.map_values(
                        |a: AttributeInfo| a@,
                    ).push(e@));
                }
                out.push(e);
                n = n + 1;
            },
            Err(er) => {
                proof {
                    assert(attr_parser()(d, p) == spec_parse_attr(d, p));
                    lemma_parse_list_fail(d, i0, n as nat, range as nat, attr_parser());
                }
                return Err(er);
            },
        }
    }
    Ok(out)
}

} // verus!
