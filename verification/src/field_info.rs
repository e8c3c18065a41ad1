//! A field record: access flags, name and descriptor pool indices, and a
//! length-prefixed attribute list.
use vstd::prelude::*;

use crate::VmError;
use crate::attribute_info;
use crate::attribute_info::{AttributeInfo, AttributeInfoView, spec_parse_attrs};
use crate::cursor::{File, be_u16};
use crate::parse_list::{spec_parse_list, lemma_parse_list_snoc, lemma_parse_list_fail};

verus! {

broadcast use vstd::std_specs::control_flow::group_control_flow_axioms, crate::cursor::lemma_file_bounds;

/// One field of the class.
#[derive(Debug)]
pub struct FieldInfo {
    access_flags: u16,
    name_index: u16,
    descriptor_index: u16,
    attributes: Vec<AttributeInfo>,
}

/// The mathematical content of a field record.
pub struct FieldInfoView {
    pub access_flags: u16,
    pub name_index: u16,
    pub descriptor_index: u16,
    pub attributes: Seq<AttributeInfoView>,
}

impl View for FieldInfo {
    type V = FieldInfoView;

    closed spec fn view(&self) -> FieldInfoView {
        FieldInfoView {
            access_flags: self.access_flags,
            name_index: self.name_index,
            descriptor_index: self.descriptor_index,
            attributes: self.attributes@.map_values(|a: AttributeInfo| a@),
        }
    }
}

impl FieldInfo {
    pub fn get_access_flags(&self) -> (r: u16)
        ensures
            r == self@.access_flags,
    {
        self.access_flags
    }

    pub fn get_name_index(&self) -> (r: u16)
        ensures
            r == self@.name_index,
    {
        self.name_index
    }

    pub fn get_descriptor_index(&self) -> (r: u16)
        ensures
            r == self@.descriptor_index,
    {
        self.descriptor_index
    }

    pub fn get_attributes(&self) -> (r: Vec<AttributeInfo>)
        ensures
            r@.map_values(|a: AttributeInfo| a@) == self@.attributes,
    {
        let mut out: Vec<AttributeInfo> = Vec::new();
        let mut n: usize = 0;
        proof {
            assert(out@.map_values(|a: AttributeInfo| a@) =~= Seq::<AttributeInfoView>::empty());
        }
        while n < self.attributes.len()
            invariant
                n <= self.attributes@.len(),
                out@.map_values(|a: AttributeInfo| a@) == self.attributes@.map_values(
                    |a: AttributeInfo| a@,
                ).subrange(0, n as int),
            decreases self.attributes@.len() - n,
        {
            let x = self.attributes[n].clone();
            proof {
                assert(out@.push(x).map_values(|a: AttributeInfo| a@) =~= out@.map_values(
                    |a: AttributeInfo| a@,
                ).push(x@));
                assert(self.attributes@.map_values(|a: AttributeInfo| a@).subrange(
                    0,
                    n + 1 as int,
                ) =~= self.attributes@.map_values(|a: AttributeInfo| a@).subrange(0, n as int).push(
                    self.attributes@[n as int]@,
                ));
            }
            out.push(x);
            n = n + 1;
        }
        proof {
            assert(self.attributes@.map_values(|a: AttributeInfo| a@).subrange(
                0,
                self.attributes@.len() as int,
            ) =~= self.attributes@.map_values(|a: AttributeInfo| a@));
        }
        out
    }
}

/// Decodes one field record of `d` at `i`: three words, an attribute count,
/// then that many attributes.
pub open spec fn spec_parse_field(d: Seq<u8>, i: int) -> Option<(FieldInfoView, int)> {
    if !(0 <= i && i + 8 <= d.len()) {
        None
    } else {
        match spec_parse_attrs(d, i + 8, be_u16(d, i + 6) as nat) {
            None => None,
            Some((attrs, end)) => Some(
                (
                    FieldInfoView {
                        access_flags: be_u16(d, i) as u16,
                        name_index: be_u16(d, i + 2) as u16,
                        descriptor_index: be_u16(d, i + 4) as u16,
                        attributes: attrs,
                    },
                    end,
                ),
            ),
        }
    }
}

/// `spec_parse_field` as a function value, for the list combinator.
pub open spec fn field_parser() -> spec_fn(Seq<u8>, int) -> Option<(FieldInfoView, int)> {
    |dd: Seq<u8>, j: int| spec_parse_field(dd, j)
}

/// Decodes `k` field records back to back.
pub open spec fn spec_parse_fields(d: Seq<u8>, i: int, k: nat) -> Option<(Seq<FieldInfoView>, int)> {
    spec_parse_list(d, i, k, field_parser())
}

/// Decodes one field record at the cursor.
pub fn parse_file(file: &mut File) -> (r: Result<FieldInfo, VmError>)
    ensures
        final(file)@.data == old(file)@.data,
        spec_parse_field(old(file)@.data, old(file)@.pointer) matches Some((v, end)) ==> {
            &&& r matches Ok(c) && c@ == v
            &&& final(file)@.pointer == end
        },
        spec_parse_field(old(file)@.data, old(file)@.pointer) is None ==> (r matches Err(e) && e
            == VmError::MalformedInput),
{
    let access_flags = file.get_u2()?;
    let name_index = file.get_u2()?;
    let descriptor_index = file.get_u2()?;
    let attributes_length = file.get_u2()?;
    let attributes = attribute_info::parse_range(file, attributes_length as usize)?;
    Ok(FieldInfo { access_flags, name_index, descriptor_index, attributes })
}

/// Decodes `range` field records.
pub fn parse_range(file: &mut File, range: usize) -> (r: Result<Vec<FieldInfo>, VmError>)
    ensures
        final(file)@.data == old(file)@.data,
        spec_parse_fields(old(file)@.data, old(file)@.pointer, range as nat) matches Some(
            (s, end),
        ) ==> {
            &&& r matches Ok(v) && v@.map_values(|f: FieldInfo| f@) == s
            &&& final(file)@.pointer == end
        },
        spec_parse_fields(old(file)@.data, old(file)@.pointer, range as nat) is None ==> (r matches Err(
            e,
        ) && e == VmError::MalformedInput),
{
    let ghost d = file@.data;
    let ghost i0 = file@.pointer;
    let mut out: Vec<FieldInfo> = Vec::new();
    let mut n: usize = 0;
    proof {
        assert(out@.map_values(|f: FieldInfo| f@) =~= Seq::<FieldInfoView>::empty());
    }
    while n < range
        invariant
            n <= range,
            d == old(file)@.data,
            i0 == old(file)@.pointer,
            file@.data == d,
            spec_parse_fields(d, i0, n as nat) == Some(
                (out@.map_values(|f: FieldInfo| f@), file@.pointer),
            ),
        decreases range - n,
    {
        let ghost p = file@.pointer;
        match parse_file(file) {
            Ok(e) => {
                proof {
                    assert(field_parser()(d, p) == spec_parse_field(d, p));
                    lemma_parse_list_snoc(d, i0, n as nat, field_parser());
                    assert(out@.push(e).map_values(|f: FieldInfo| f@) =~= out@.map_values(
                        |f: FieldInfo| f@,
                    ).push(e@));
                }
                out.push(e);
                n = n + 1;
            },
            Err(er) => {
                proof {
                    assert(field_parser()(d, p) == spec_parse_field(d, p));
                    lemma_parse_list_fail(d, i0, n as nat, range as nat, field_parser());
                }
                return Err(er);
            },
        }
    }
    Ok(out)
}

} // verus!
