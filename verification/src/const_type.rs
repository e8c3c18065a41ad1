//! The constant pool's tagged entries: a closed union over fourteen kinds,
//! each selected by a one-byte tag and followed by its fixed payload (the
//! text kind carries a length-prefixed byte run). Any other tag is a
//! malformed-input error.
use vstd::prelude::*;

use crate::VmError;
use crate::cursor::{File, be_u16, be_u32};
use crate::parse_list::{spec_parse_list, lemma_parse_list_snoc, lemma_parse_list_fail};

verus! {

broadcast use vstd::std_specs::control_flow::group_control_flow_axioms, crate::cursor::lemma_file_bounds;

/// One constant-pool entry. Numbers are kept as the raw big-endian words of
/// the wire format; the float and double kinds keep their raw bits, since the
/// machine never computes with them.
#[derive(Debug, PartialEq, Eq)]
pub enum ConstType {
    Class(u16),
    Fieldref(u16, u16),
    Methodref(u16, u16),
    InterfaceMethodref(u16, u16),
    Str(u16),
    Integer(u32),
    Float(u32),
    Long(u32, u32),
    Double(u32, u32),
    NameAndType(u16, u16),
    Utf8(Vec<u8>),
    MethodHandle(u8, u16),
    MethodType(u16),
    InvokeDynamic(u16, u16),
}

/// The mathematical content of a pool entry.
pub enum ConstTypeView {
    Class(u16),
    Fieldref(u16, u16),
    Methodref(u16, u16),
    InterfaceMethodref(u16, u16),
    Str(u16),
    Integer(u32),
    Float(u32),
    Long(u32, u32),
    Double(u32, u32),
    NameAndType(u16, u16),
    Utf8(Seq<u8>),
    MethodHandle(u8, u16),
    MethodType(u16),
    InvokeDynamic(u16, u16),
}

impl Clone for ConstType {
    /// A deep copy: the snapshot an `ldc` pushes is value-equal to the pool
    /// entry it was taken from.
    fn clone(&self) -> (r: Self)
        ensures
            r@ == self@,
    {
        match self {
            ConstType::Class(a) => ConstType::Class(*a),
            ConstType::Fieldref(a, b) => ConstType::Fieldref(*a, *b),
            ConstType::Methodref(a, b) => ConstType::Methodref(*a, *b),
            ConstType::InterfaceMethodref(a, b) => ConstType::InterfaceMethodref(*a, *b),
            ConstType::Str(a) => ConstType::Str(*a),
            ConstType::Integer(a) => ConstType::Integer(*a),
            ConstType::Float(a) => ConstType::Float(*a),
            ConstType::Long(a, b) => ConstType::Long(*a, *b),
            ConstType::Double(a, b) => ConstType::Double(*a, *b),
            ConstType::NameAndType(a, b) => ConstType::NameAndType(*a, *b),
            ConstType::Utf8(v) => {
                let w = v.clone();
                proof {
                    assert(w@ =~= v@);
                }
                ConstType::Utf8(w)
            },
            ConstType::MethodHandle(a, b) => ConstType::MethodHandle(*a, *b),
            ConstType::MethodType(a) => ConstType::MethodType(*a),
            ConstType::InvokeDynamic(a, b) => ConstType::InvokeDynamic(*a, *b),
        }
    }
}

impl View for ConstType {
    type V = ConstTypeView;

    open spec fn view(&self) -> ConstTypeView {
        match self {
            ConstType::Class(a) => ConstTypeView::Class(*a),
            ConstType::Fieldref(a, b) => ConstTypeView::Fieldref(*a, *b),
            ConstType::Methodref(a, b) => ConstTypeView::Methodref(*a, *b),
            ConstType::InterfaceMethodref(a, b) => ConstTypeView::InterfaceMethodref(*a, *b),
            ConstType::Str(a) => ConstTypeView::Str(*a),
            ConstType::Integer(a) => ConstTypeView::Integer(*a),
            ConstType::Float(a) => ConstTypeView::Float(*a),
            ConstType::Long(a, b) => ConstTypeView::Long(*a, *b),
            ConstType::Double(a, b) => ConstTypeView::Double(*a, *b),
            ConstType::NameAndType(a, b) => ConstTypeView::NameAndType(*a, *b),
            ConstType::Utf8(v) => ConstTypeView::Utf8(v@),
            ConstType::MethodHandle(a, b) => ConstTypeView::MethodHandle(*a, *b),
            ConstType::MethodType(a) => ConstTypeView::MethodType(*a),
            ConstType::InvokeDynamic(a, b) => ConstTypeView::InvokeDynamic(*a, *b),
        }
    }
}

/// Decodes one pool entry of `d` at `i`: the tag byte, then its payload.
/// `None` on a short read or a tag outside the fourteen kinds.
pub open spec fn spec_parse_const(d: Seq<u8>, i: int) -> Option<(ConstTypeView, int)> {
    if !(0 <= i && i + 1 <= d.len()) {
        None
    } else {
        let tag = d[i];
        if tag == 7 && i + 3 <= d.len() {
            Some((ConstTypeView::Class(be_u16(d, i + 1) as u16), i + 3))
        } else if tag == 9 && i + 5 <= d.len() {
            Some(
                (
                    ConstTypeView::Fieldref(be_u16(d, i + 1) as u16, be_u16(d, i + 3) as u16),
                    i + 5,
                ),
            )
        } else if tag == 10 && i + 5 <= d.len() {
            Some(
                (
                    ConstTypeView::Methodref(be_u16(d, i + 1) as u16, be_u16(d, i + 3) as u16),
                    i + 5,
                ),
            )
        } else if tag == 11 && i + 5 <= d.len() {
            Some(
                (
                    ConstTypeView::InterfaceMethodref(
                        be_u16(d, i + 1) as u16,
                        be_u16(d, i + 3) as u16,
                    ),
                    i + 5,
                ),
            )
        } else if tag == 8 && i + 3 <= d.len() {
            Some((ConstTypeView::Str(be_u16(d, i + 1) as u16), i + 3))
        } else if tag == 3 && i + 5 <= d.len() {
            Some((ConstTypeView::Integer(be_u32(d, i + 1) as u32), i + 5))
        } else if tag == 4 && i + 5 <= d.len() {
            Some((ConstTypeView::Float(be_u32(d, i + 1) as u32), i + 5))
        } else if tag == 5 && i + 9 <= d.len() {
            Some((ConstTypeView::Long(be_u32(d, i + 1) as u32, be_u32(d, i + 5) as u32), i + 9))
        } else if tag == 6 && i + 9 <= d.len() {
            Some((ConstTypeView::Double(be_u32(d, i + 1) as u32, be_u32(d, i + 5) as u32), i + 9))
        } else if tag == 12 && i + 5 <= d.len() {
            Some(
                (
                    ConstTypeView::NameAndType(be_u16(d, i + 1) as u16, be_u16(d, i + 3) as u16),
                    i + 5,
                ),
            )
        } else if tag == 1 && i + 3 <= d.len() && i + 3 + be_u16(d, i + 1) <= d.len() {
            Some((ConstTypeView::Utf8(d.subrange(i + 3, i + 3 + be_u16(d, i + 1))), i + 3 + be_u16(
                d,
                i + 1,
            )))
        } else if tag == 15 && i + 4 <= d.len() {
            Some((ConstTypeView::MethodHandle(d[i + 1], be_u16(d, i + 2) as u16), i + 4))
        } else if tag == 16 && i + 3 <= d.len() {
            Some((ConstTypeView::MethodType(be_u16(d, i + 1) as u16), i + 3))
        } else if tag == 18 && i + 5 <= d.len() {
            Some(
                (
                    ConstTypeView::InvokeDynamic(be_u16(d, i + 1) as u16, be_u16(d, i + 3) as u16),
                    i + 5,
                ),
            )
        } else {
            None
        }
    }
}

/// `spec_parse_const` as a function value, for the list combinator.
pub open spec fn const_parser() -> spec_fn(Seq<u8>, int) -> Option<(ConstTypeView, int)> {
    |dd: Seq<u8>, j: int| spec_parse_const(dd, j)
}

/// Decodes `k` pool entries back to back.
pub open spec fn spec_parse_consts(d: Seq<u8>, i: int, k: nat) -> Option<(Seq<ConstTypeView>, int)> {
    spec_parse_list(d, i, k, const_parser())
}

/// How many entries a pool whose count word reads `range` holds: the count
/// includes the reserved slot 0, so one fewer entry is decoded.
pub open spec fn pool_entries(range: nat) -> nat {
    if range == 0 {
        0
    } else {
        (range - 1) as nat
    }
}

/// Decodes one pool entry at the cursor.
pub fn parse_file(file: &mut File) -> (r: Result<ConstType, VmError>)
    ensures
        final(file)@.data == old(file)@.data,
        spec_parse_const(old(file)@.data, old(file)@.pointer) matches Some((v, end)) ==> {
            &&& r matches Ok(c) && c@ == v
            &&& final(file)@.pointer == end
        },
        spec_parse_const(old(file)@.data, old(file)@.pointer) is None ==> (r matches Err(e)
            && e == VmError::MalformedInput),
{
    let tag = file.get_u1()?;
    match tag {
        7 => Ok(ConstType::Class(file.get_u2()?)),
        9 => {
            let a = file.get_u2()?;
            let b = file.get_u2()?;
            Ok(ConstType::Fieldref(a, b))
        },
        10 => {
            let a = file.get_u2()?;
            let b = file.get_u2()?;
            Ok(ConstType::Methodref(a, b))
        },
        11 => {
            let a = file.get_u2()?;
            let b = file.get_u2()?;
            Ok(ConstType::InterfaceMethodref(a, b))
        },
        8 => Ok(ConstType::Str(file.get_u2()?)),
        3 => Ok(ConstType::Integer(file.get_u4()?)),
        4 => Ok(ConstType::Float(file.get_u4()?)),
        5 => {
            let hi = file.get_u4()?;
            let lo = file.get_u4()?;
            Ok(ConstType::Long(hi, lo))
        },
        6 => {
            let hi = file.get_u4()?;
            let lo = file.get_u4()?;
            Ok(ConstType::Double(hi, lo))
        },
        12 => {
            let a = file.get_u2()?;
            let b = file.get_u2()?;
            Ok(ConstType::NameAndType(a, b))
        },
        1 => {
            let string_length = file.get_u2()?;
            Ok(ConstType::Utf8(file.get_range(string_length as usize)?))
        },
        15 => {
            let kind = file.get_u1()?;
            let idx = file.get_u2()?;
            Ok(ConstType::MethodHandle(kind, idx))
        },
        16 => Ok(ConstType::MethodType(file.get_u2()?)),
        18 => {
            let a = file.get_u2()?;
            let b = file.get_u2()?;
            Ok(ConstType::InvokeDynamic(a, b))
        },
        _ => Err(VmError::MalformedInput),
    }
}


/// Decodes the pool for a count word of `range`: one entry fewer than the
/// count, since slot 0 is reserved and never encoded.
pub fn parse_range(file: &mut File, range: usize) -> (r: Result<Vec<ConstType>, VmError>)
    ensures
        final(file)@.data == old(file)@.data,
        spec_parse_consts(old(file)@.data, old(file)@.pointer, pool_entries(range as nat)) matches Some(
            (s, end),
        ) ==> {
            &&& r matches Ok(v) && v@.map_values(|c: ConstType| c@) == s
            &&& final(file)@.pointer == end
        },
        spec_parse_consts(old(file)@.data, old(file)@.pointer, pool_entries(range as nat))
            is None ==> (r matches Err(e) && e == VmError::MalformedInput),
{
    let ghost d = file@.data;
    let ghost i0 = file@.pointer;
    let k: usize = if range == 0 {
        0
    } else {
        range - 1
    };
    let mut out: Vec<ConstType> = Vec::new();
    let mut n: usize = 0;
    proof {
        assert(out@.map_values(|c: ConstType| c@) =~= Seq::<ConstTypeView>::empty());
    }
    while n < k
        invariant
            n <= k,
            k == pool_entries(range as nat),
            d == old(file)@.data,
            i0 == old(file)@.pointer,
            file@.data == d,
            spec_parse_consts(d, i0, n as nat) == Some(
                (out@.map_values(|c: ConstType| c@), file@.pointer),
            ),
        decreases k - n,
    {
        let ghost p = file@.pointer;
        match parse_file(file) {
            Ok(e) => {
                proof {
                    assert(const_parser()(d, p) == spec_parse_const(d, p));
                    lemma_parse_list_snoc(d, i0, n as nat, const_parser());
                    assert(out@.push(e).map_values(|c: ConstType| c@) =~= out@.map_values(
                        |c: ConstType| c@,
                    ).push(e@));
                }
                out.push(e);
                n = n + 1;
            },
            Err(er) => {
                proof {
                    assert(const_parser()(d, p) == spec_parse_const(d, p));
                    lemma_parse_list_fail(d, i0, n as nat, k as nat, const_parser());
                }
                return Err(er);
            },
        }
    }
    Ok(out)
}

} // verus!
