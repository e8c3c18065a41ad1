//! A method record: the same wire shape as a field record. Methods are the
//! records the interpreter looks up by name to find code to run.
use vstd::prelude::*;

use crate::VmError;
use crate::attribute_info;
use crate::attribute_info::{AttributeInfo, AttributeInfoView, spec_parse_attrs};
use crate::cursor::{File, be_u16};
use crate::parse_list::{spec_parse_list, lemma_parse_list_snoc, lemma_parse_list_fail};

verus! {

broadcast use vstd::std_specs::control_flow::group_control_flow_axioms, crate::cursor::lemma_file_bounds;

/// One method of the class.
#[derive(Debug)]
pub struct MethodInfo {
    access_flags: u16,
    name_index: u16,
    descriptor_index: u16,
    attributes: Vec<AttributeInfo>,
}

/// The mathematical content of a method record.
pub struct MethodInfoView {
    pub access_flags: u16,
    pub name_index: u16,
    pub descriptor_index: u16,
    pub attributes: Seq<AttributeInfoView>,
}

impl View for MethodInfo {
    type V = MethodInfoView;

    closed spec fn view(&self) -> MethodInfoView {
        MethodInfoView {
            access_flags: self.access_flags,
            name_index: self.name_index,
            descriptor_index: self.descriptor_index,
            attributes: self.attributes@.map_values(|a: AttributeInfo| a@),
        }
    }
}

impl MethodInfo {
    pub fn get_name_index(&self) -> (r: u16)
        ensures
            r == self@.name_index,
    {
        self.name_index
    }

    /// The method's attribute list, where its code attribute is looked up.
    pub fn get_attributes(&self) -> (r: &Vec<AttributeInfo>)
        ensures
            r@.map_values(|a: AttributeInfo| a@) == self@.attributes,
    {
        &self.attributes
    }
}

impl crate::jvm::ContainsAttributes for MethodInfo {
    open spec fn attributes_view(&self) -> Seq<AttributeInfoView> {
        self@.attributes
    }

    fn get_attributes(&self) -> (r: &Vec<AttributeInfo>) {
        &self.attributes
    }
}

/// Decodes one method record of `d` at `i`.
pub open spec fn spec_parse_method(d: Seq<u8>, i: int) -> Option<(MethodInfoView, int)> {
    if !(0 <= i && i + 8 <= d.len()) {
        None
    } else {
        match spec_parse_attrs(d, i + 8, be_u16(d, i + 6) as nat) {
            None => None,
            Some((attrs, end)) => Some(
                (
                    MethodInfoView {
                        access_flags: be_u16(d, i) as u16,
                        name_index: be_u16(d, i + 2) as u16,
                        descriptor_index: be_u16(d, i + 4) as u16,
                        attributes: attrs,
                    },
                    end,
                ),
            ),
        }
    }
}

/// `spec_parse_method` as a function value, for the list combinator.
pub open spec fn method_parser() -> spec_fn(Seq<u8>, int) -> Option<(MethodInfoView, int)> {
    |dd: Seq<u8>, j: int| spec_parse_method(dd, j)
}

/// Decodes `k` method records back to back.
pub open spec fn spec_parse_methods(d: Seq<u8>, i: int, k: nat) -> Option<
    (Seq<MethodInfoView>, int),
> {
    spec_parse_list(d, i, k, method_parser())
}

/// Decodes one method record at the cursor.
pub fn parse_file(file: &mut File) -> (r: Result<MethodInfo, VmError>)
    ensures
        final(file)@.data == old(file)@.data,
        spec_parse_method(old(file)@.data, old(file)@.pointer) matches Some((v, end)) ==> {
            &&& r matches Ok(c) && c@ == v
            &&& final(file)@.pointer == end
        },
        spec_parse_method(old(file)@.data, old(file)@.pointer) is None ==> (r matches Err(e) && e
            == VmError::MalformedInput),
{
    let access_flags = file.get_u2()?;
    let name_index = file.get_u2()?;
    let descriptor_index = file.get_u2()?;
    let attributes_length = file.get_u2()?;
    let attributes = attribute_info::parse_range(file, attributes_length as usize)?;
    Ok(MethodInfo { access_flags, name_index, descriptor_index, attributes })
}

/// Decodes `range` method records.
pub fn parse_range(file: &mut File, range: usize) -> (r: Result<Vec<MethodInfo>, VmError>)
    ensures
        final(file)@.data == old(file)@.data,
        spec_parse_methods(old(file)@.data, old(file)@.pointer, range as nat) matches Some(
            (s, end),
        ) ==> {
            &&& r matches Ok(v) && v@.map_values(|m: MethodInfo| m@) == s
            &&& final(file)@.pointer == end
        },
        spec_parse_methods(old(file)@.data, old(file)@.pointer, range as nat) is None ==> (r matches Err(
            e,
        ) && e == VmError::MalformedInput),
{
    let ghost d = file@.data;
    let ghost i0 = file@.pointer;
    let mut out: Vec<MethodInfo> = Vec::new();
    let mut n: usize = 0;
    proof {
        assert(out@.map_values(|m: MethodInfo| m@) =~= Seq::<MethodInfoView>::empty());
    }
    while n < range
        invariant
            n <= range,
            d == old(file)@.data,
            i0 == old(file)@.pointer,
            file@.data == d,
            spec_parse_methods(d, i0, n as nat) == Some(
                (out@.map_values(|m: MethodInfo| m@), file@.pointer),
            ),
        decreases range - n,
    {
        let ghost p = file@.pointer;
        match parse_file(file) {
            Ok(e) => {
                proof {
                    assert(method_parser()(d, p) == spec_parse_method(d, p));
                    lemma_parse_list_snoc(d, i0, n as nat, method_parser());
                    assert(out@.push(e).map_values(|m: MethodInfo| m@) =~= out@.map_values(
                        |m: MethodInfo| m@,
                    ).push(e@));
                }
                out.push(e);
                n = n + 1;
            },
            Err(er) => {
                proof {
                    assert(method_parser()(d, p) == spec_parse_method(d, p));
                    lemma_parse_list_fail(d, i0, n as nat, range as nat, method_parser());
                }
                return Err(er);
            },
        }
    }
    Ok(out)
}

} // verus!
