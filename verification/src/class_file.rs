//! The decoded class binary: header, constant pool, flags, interfaces,
//! fields, methods and attributes, together with the typed resolvers that
//! walk pool references (class name, member name, member descriptor) and
//! fail loudly on a kind mismatch.
//!
//! The pool is 1-indexed: slot 0 is reserved, so index `i` reads physical
//! entry `i - 1`, and index 0 or an index past the pool is an error.
use vstd::prelude::*;

use crate::VmError;
use crate::attribute_info;
use crate::attribute_info::{AttributeInfo, AttributeInfoView, spec_parse_attrs};
use crate::const_type;
use crate::const_type::{ConstType, ConstTypeView, spec_parse_consts, pool_entries};
use crate::cursor::{File, be_u16, be_u32};
use crate::field_info;
use crate::field_info::{FieldInfo, FieldInfoView, spec_parse_fields};
use crate::jvm::ContainsMethods;
use crate::method_info;
use crate::method_info::{MethodInfo, MethodInfoView, spec_parse_methods};

verus! {

broadcast use vstd::std_specs::control_flow::group_control_flow_axioms, crate::cursor::lemma_file_bounds;

/// A decoded class binary.
#[derive(Debug)]
pub struct ClassFile {
    magic: u32,
    minor_version: u16,
    major_version: u16,
    constant_pool: Vec<ConstType>,
    access_flags: u16,
    this_class: u16,
    super_class: u16,
    interfaces: Vec<u16>,
    fields: Vec<FieldInfo>,
    methods: Vec<MethodInfo>,
    attributes: Vec<AttributeInfo>,
}

/// The mathematical content of a class.
pub struct ClassFileView {
    pub magic: u32,
    pub minor_version: u16,
    pub major_version: u16,
    pub constant_pool: Seq<ConstTypeView>,
    pub access_flags: u16,
    pub this_class: u16,
    pub super_class: u16,
    pub interfaces: Seq<u16>,
    pub fields: Seq<FieldInfoView>,
    pub methods: Seq<MethodInfoView>,
    pub attributes: Seq<AttributeInfoView>,
}

impl View for ClassFile {
    type V = ClassFileView;

    closed spec fn view(&self) -> ClassFileView {
        ClassFileView {
            magic: self.magic,
            minor_version: self.minor_version,
            major_version: self.major_version,
            constant_pool: self.constant_pool@.map_values(|c: ConstType| c@),
            access_flags: self.access_flags,
            this_class: self.this_class,
            super_class: self.super_class,
            interfaces: self.interfaces@,
            fields: self.fields@.map_values(|f: FieldInfo| f@),
            methods: self.methods@.map_values(|m: MethodInfo| m@),
            attributes: self.attributes@.map_values(|a: AttributeInfo| a@),
        }
    }
}

/// Whether `i` is a valid 1-based pool index.
pub open spec fn pool_has(pool: Seq<ConstTypeView>, i: int) -> bool {
    1 <= i <= pool.len()
}

/// The text entry at 1-based index `i`, when that slot holds one.
pub open spec fn spec_utf8_at(pool: Seq<ConstTypeView>, i: int) -> Option<Seq<u8>> {
    if pool_has(pool, i) {
        match pool[i - 1] {
            ConstTypeView::Utf8(b) => Some(b),
            _ => None,
        }
    } else {
        None
    }
}

/// The name of the class entry at 1-based index `i`: a class entry whose
/// name index leads to a text entry.
pub open spec fn spec_class_name(pool: Seq<ConstTypeView>, i: int) -> Option<Seq<u8>> {
    if pool_has(pool, i) {
        match pool[i - 1] {
            ConstTypeView::Class(ni) => spec_utf8_at(pool, ni as int),
            _ => None,
        }
    } else {
        None
    }
}

/// The member name behind the name-and-type entry at 1-based index `i`.
pub open spec fn spec_member_name(pool: Seq<ConstTypeView>, i: int) -> Option<Seq<u8>> {
    if pool_has(pool, i) {
        match pool[i - 1] {
            ConstTypeView::NameAndType(ni, di) => spec_utf8_at(pool, ni as int),
            _ => None,
        }
    } else {
        None
    }
}

/// The member descriptor behind the name-and-type entry at 1-based index `i`.
pub open spec fn spec_member_descriptor(pool: Seq<ConstTypeView>, i: int) -> Option<Seq<u8>> {
    if pool_has(pool, i) {
        match pool[i - 1] {
            ConstTypeView::NameAndType(ni, di) => spec_utf8_at(pool, di as int),
            _ => None,
        }
    } else {
        None
    }
}

/// Which error a failed class-name walk reports: an out-of-range index is an
/// interpreter-invariant violation, an entry of the wrong kind is malformed
/// input.
pub open spec fn spec_class_name_err(pool: Seq<ConstTypeView>, i: int) -> VmError {
    if !pool_has(pool, i) {
        VmError::InvariantViolation
    } else {
        match pool[i - 1] {
            ConstTypeView::Class(ni) => if !pool_has(pool, ni as int) {
                VmError::InvariantViolation
            } else {
                VmError::MalformedInput
            },
            _ => VmError::MalformedInput,
        }
    }
}

/// Which error a failed member-name or member-descriptor walk reports.
pub open spec fn spec_name_and_type_err(pool: Seq<ConstTypeView>, i: int, descriptor: bool) -> VmError {
    if !pool_has(pool, i) {
        VmError::InvariantViolation
    } else {
        match pool[i - 1] {
            ConstTypeView::NameAndType(ni, di) => if !pool_has(
                pool,
                if descriptor {
                    di as int
                } else {
                    ni as int
                },
            ) {
                VmError::InvariantViolation
            } else {
                VmError::MalformedInput
            },
            _ => VmError::MalformedInput,
        }
    }
}

/// Which error a failed member-name walk reports.
pub open spec fn spec_member_name_err(pool: Seq<ConstTypeView>, i: int) -> VmError {
    spec_name_and_type_err(pool, i, false)
}

/// Which error a failed member-descriptor walk reports.
pub open spec fn spec_member_descriptor_err(pool: Seq<ConstTypeView>, i: int) -> VmError {
    spec_name_and_type_err(pool, i, true)
}

impl ClassFile {
    /// The pool entry at 1-based index `constant_index`, read from physical
    /// slot `constant_index - 1`; index 0 and an index past the pool are
    /// errors.
    pub fn get_constant(&self, constant_index: usize) -> (r: Result<&ConstType, VmError>)
        ensures
            pool_has(self@.constant_pool, constant_index as int) ==> (r matches Ok(c) && c@
                == self@.constant_pool[constant_index - 1]),
            !pool_has(self@.constant_pool, constant_index as int) ==> (r matches Err(e) && e
                == VmError::InvariantViolation),
    {
        if 1 <= constant_index && constant_index <= self.constant_pool.len() {
            Ok(&self.constant_pool[constant_index - 1])
        } else {
            Err(VmError::InvariantViolation)
        }
    }

    /// Follows a class entry to its name text. A missing slot is an
    /// invariant violation; an entry of the wrong kind is malformed input.
    pub fn get_name_of_class(&self, class_index: usize) -> (r: Result<Vec<u8>, VmError>)
        ensures
            spec_class_name(self@.constant_pool, class_index as int) matches Some(b) ==> (r matches Ok(
                v,
            ) && v@ == b),
            spec_class_name(self@.constant_pool, class_index as int) is None ==> (r matches Err(e)
                && e == spec_class_name_err(self@.constant_pool, class_index as int)),
    {
        let pool_len = self.constant_pool.len();
        if !(1 <= class_index && class_index <= pool_len) {
            return Err(VmError::InvariantViolation);
        }
        match &self.constant_pool[class_index - 1] {
            ConstType::Class(name_index) => {
                let ni = *name_index as usize;
                if !(1 <= ni && ni <= pool_len) {
                    return Err(VmError::InvariantViolation);
                }
                match &self.constant_pool[ni - 1] {
                    ConstType::Utf8(bytes) => {
                        let v = bytes.clone();
                        proof {
                            assert(v@ =~= bytes@);
                        }
                        Ok(v)
                    },
                    _ => Err(VmError::MalformedInput),
                }
            },
            _ => Err(VmError::MalformedInput),
        }
    }

    /// Follows a name-and-type entry to the member's name text.
    pub fn get_name_of_member(&self, name_and_type_index: usize) -> (r: Result<Vec<u8>, VmError>)
        ensures
            spec_member_name(self@.constant_pool, name_and_type_index as int) matches Some(
                b,
            ) ==> (r matches Ok(v) && v@ == b),
            spec_member_name(self@.constant_pool, name_and_type_index as int) is None ==> (
            r matches Err(e) && e == spec_member_name_err(
                self@.constant_pool,
                name_and_type_index as int,
            )),
    {
        let pool_len = self.constant_pool.len();
        if !(1 <= name_and_type_index && name_and_type_index <= pool_len) {
            return Err(VmError::InvariantViolation);
        }
        match &self.constant_pool[name_and_type_index - 1] {
            ConstType::NameAndType(name_index, _descriptor_index) => {
                let ni = *name_index as usize;
                if !(1 <= ni && ni <= pool_len) {
                    return Err(VmError::InvariantViolation);
                }
                match &self.constant_pool[ni - 1] {
                    ConstType::Utf8(bytes) => {
                        let v = bytes.clone();
                        proof {
                            assert(v@ =~= bytes@);
                        }
                        Ok(v)
                    },
                    _ => Err(VmError::MalformedInput),
                }
            },
            _ => Err(VmError::MalformedInput),
        }
    }

    /// Follows a name-and-type entry to the member's descriptor text.
    pub fn get_description_of_member(&self, name_and_type_index: usize) -> (r: Result<
        Vec<u8>,
        VmError,
    >)
        ensures
            spec_member_descriptor(self@.constant_pool, name_and_type_index as int) matches Some(
                b,
            ) ==> (r matches Ok(v) && v@ == b),
            spec_member_descriptor(self@.constant_pool, name_and_type_index as int)
                is None ==> (r matches Err(e) && e == spec_member_descriptor_err(
                self@.constant_pool,
                name_and_type_index as int,
            )),
    {
        let pool_len = self.constant_pool.len();
        if !(1 <= name_and_type_index && name_and_type_index <= pool_len) {
            return Err(VmError::InvariantViolation);
        }
        match &self.constant_pool[name_and_type_index - 1] {
            ConstType::NameAndType(_name_index, descriptor_index) => {
                let di = *descriptor_index as usize;
                if !(1 <= di && di <= pool_len) {
                    return Err(VmError::InvariantViolation);
                }
                match &self.constant_pool[di - 1] {
                    ConstType::Utf8(bytes) => {
                        let v = bytes.clone();
                        proof {
                            assert(v@ =~= bytes@);
                        }
                        Ok(v)
                    },
                    _ => Err(VmError::MalformedInput),
                }
            },
            _ => Err(VmError::MalformedInput),
        }
    }
}

impl ContainsMethods for ClassFile {
    open spec fn methods_view(&self) -> Seq<MethodInfoView> {
        self@.methods
    }

    fn get_methods(&self) -> (r: &Vec<MethodInfo>) {
        &self.methods
    }
}

/// Decodes a whole class binary of `d` at `i`: header, pool, flags,
/// interfaces, fields, methods, attributes.
pub open spec fn spec_parse_class(d: Seq<u8>, i: int) -> Option<(ClassFileView, int)> {
    if !(0 <= i && i + 10 <= d.len()) {
        None
    } else {
        match spec_parse_consts(d, i + 10, pool_entries(be_u16(d, i + 8) as nat)) {
            None => None,
            Some((pool, p1)) => {
                if !(p1 + 8 <= d.len()) {
                    None
                } else {
                    let icount = be_u16(d, p1 + 6);
                    if !(p1 + 8 + 2 * icount <= d.len()) {
                        None
                    } else {
                        let p2 = p1 + 8 + 2 * icount;
                        if !(p2 + 2 <= d.len()) {
                            None
                        } else {
                            match spec_parse_fields(d, p2 + 2, be_u16(d, p2) as nat) {
                                None => None,
                                Some((fields, p3)) => {
                                    if !(p3 + 2 <= d.len()) {
                                        None
                                    } else {
                                        match spec_parse_methods(d, p3 + 2, be_u16(d, p3) as nat) {
                                            None => None,
                                            Some((methods, p4)) => {
                                                if !(p4 + 2 <= d.len()) {
                                                    None
                                                } else {
                                                    match spec_parse_attrs(
                                                        d,
                                                        p4 + 2,
                                                        be_u16(d, p4) as nat,
                                                    ) {
                                                        None => None,
                                                        Some((attrs, end)) => Some(
                                                            (
                                                                ClassFileView {
                                                                    magic: be_u32(d, i) as u32,
                                                                    minor_version: be_u16(
                                                                        d,
                                                                        i + 4,
                                                                    ) as u16,
                                                                    major_version: be_u16(
                                                                        d,
                                                                        i + 6,
                                                                    ) as u16,
                                                                    constant_pool: pool,
                                                                    access_flags: be_u16(
                                                                        d,
                                                                        p1,
                                                                    ) as u16,
                                                                    this_class: be_u16(
                                                                        d,
                                                                        p1 + 2,
                                                                    ) as u16,
                                                                    super_class: be_u16(
                                                                        d,
                                                                        p1 + 4,
                                                                    ) as u16,
                                                                    interfaces: Seq::new(
                                                                        icount as nat,
                                                                        |x: int|
                                                                            be_u16(
                                                                                d,
                                                                                p1 + 8 + 2 * x,
                                                                            ) as u16,
                                                                    ),
                                                                    fields: fields,
                                                                    methods: methods,
                                                                    attributes: attrs,
                                                                },
                                                                end,
                                                            ),
                                                        ),
                                                    }
                                                }
                                            },
                                        }
                                    }
                                },
                            }
                        }
                    }
                }
            },
        }
    }
}

/// Decodes a whole class binary at the cursor. On success, the pool holds
/// one entry fewer than its count word, and the interface, field, method and
/// attribute lists hold exactly as many records as their prefix counts.
pub fn parse_file(file: &mut File) -> (r: Result<ClassFile, VmError>)
    ensures
        final(file)@.data == old(file)@.data,
        spec_parse_class(old(file)@.data, old(file)@.pointer) matches Some((v, end)) ==> {
            &&& r matches Ok(c) && c@ == v
            &&& final(file)@.pointer == end
        },
        spec_parse_class(old(file)@.data, old(file)@.pointer) is None ==> (r matches Err(e) && e
            == VmError::MalformedInput),
{
    let ghost d = file@.data;
    let ghost i = file@.pointer;
    let magic = file.get_u4()?;
    let minor_version = file.get_u2()?;
    let major_version = file.get_u2()?;
    let constant_count = file.get_u2()?;
    let constant_pool = const_type::parse_range(file, constant_count as usize)?;
    let ghost p1 = file@.pointer;
    let access_flags = file.get_u2()?;
    let this_class = file.get_u2()?;
    let super_class = file.get_u2()?;
    let interface_count = file.get_u2()?;
    let interfaces = file.get_range_u2(interface_count as usize)?;
    proof {
        assert(interfaces@ =~= Seq::new(
            be_u16(d, p1 + 6) as nat,
            |x: int| be_u16(d, p1 + 8 + 2 * x) as u16,
        ));
    }
    let ghost p2 = file@.pointer;
    let field_count = file.get_u2()?;
    let fields = field_info::parse_range(file, field_count as usize)?;
    let ghost p3 = file@.pointer;
    let methods_count = file.get_u2()?;
    let methods = method_info::parse_range(file, methods_count as usize)?;
    let ghost p4 = file@.pointer;
    let attributes_count = file.get_u2()?;
    let attributes = attribute_info::parse_range(file, attributes_count as usize)?;
    Ok(
        ClassFile {
            magic,
            minor_version,
            major_version,
            constant_pool,
            access_flags,
            this_class,
            super_class,
            interfaces,
            fields,
            methods,
            attributes,
        },
    )
}

} // verus!
