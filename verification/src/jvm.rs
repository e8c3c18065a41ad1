//! The interpreter engine: the frame model (program counter, operand stack,
//! local slots), the dispatch table built from instruction modules, the
//! per-opcode semantics, and the run loop with its explicit stack of call
//! frames.
use vstd::prelude::*;

use std::collections::HashMap;

use crate::VmError;
use crate::const_type::{ConstType, ConstTypeView};
use crate::integer_module::IntegerModule;
use crate::cursor::{File, be_u16, jump_target};
use crate::attribute_info::AttributeInfoView;
use crate::class_file::{ClassFile, ClassFileView, pool_has};
use crate::method_info::{MethodInfo, MethodInfoView};

verus! {

broadcast use vstd::std_specs::control_flow::group_control_flow_axioms, crate::cursor::lemma_file_bounds;

/// A value on the operand stack: a machine integer, a snapshot of a pool
/// entry, or the one opaque stream handle the machine knows.
#[derive(Debug, PartialEq, Eq)]
pub enum OperandFrame {
    StdOut,
    Constant(ConstType),
    Int(i32),
}

/// The mathematical content of an operand.
pub enum OperandFrameView {
    StdOut,
    Constant(ConstTypeView),
    Int(i32),
}

impl View for OperandFrame {
    type V = OperandFrameView;

    open spec fn view(&self) -> OperandFrameView {
        match self {
            OperandFrame::StdOut => OperandFrameView::StdOut,
            OperandFrame::Constant(c) => OperandFrameView::Constant(c@),
            OperandFrame::Int(i) => OperandFrameView::Int(*i),
        }
    }
}

/// A local-variable slot: an integer, or nothing yet.
#[derive(Clone, Copy, Debug, PartialEq, Eq, Structural)]
pub enum LocalFrame {
    Int(i32),
    Empty,
}

/// One line the machine printed: the bytes of a text constant, or a decimal
/// integer.
#[derive(Debug, Clone, PartialEq, Eq)]
pub enum OutputItem {
    Utf8(Vec<u8>),
    Int(i32),
}

/// The mathematical content of an output line.
pub enum OutputItemView {
    Utf8(Seq<u8>),
    Int(i32),
}

impl View for OutputItem {
    type V = OutputItemView;

    open spec fn view(&self) -> OutputItemView {
        match self {
            OutputItem::Utf8(v) => OutputItemView::Utf8(v@),
            OutputItem::Int(i) => OutputItemView::Int(*i),
        }
    }
}

/// One method activation's state: a cursor over its instruction bytes (the
/// program counter), the operand stack, and the local-variable slots.
#[derive(Debug)]
pub struct Frame {
    code: File,
    operand_stack: Vec<OperandFrame>,
    locale_variables: Vec<LocalFrame>,
}

/// The mathematical content of a frame.
pub struct FrameView {
    pub code: Seq<u8>,
    pub pc: int,
    pub stack: Seq<OperandFrameView>,
    pub locals: Seq<LocalFrame>,
}

impl View for Frame {
    type V = FrameView;

    closed spec fn view(&self) -> FrameView {
        FrameView {
            code: self.code@.data,
            pc: self.code@.pointer,
            stack: self.operand_stack@.map_values(|o: OperandFrame| o@),
            locals: self.locale_variables@,
        }
    }
}

impl Frame {
    /// A fresh activation: the cursor at the start of `code`, an empty
    /// operand stack, and `max_locals` empty slots.
    pub fn new(code: Vec<u8>, max_locals: usize) -> (f: Frame)
        ensures
            f@.code == code@,
            f@.pc == 0,
            f@.stack == Seq::<OperandFrameView>::empty(),
            f@.locals == Seq::new(max_locals as nat, |x: int| LocalFrame::Empty),
    {
        let mut locale_variables: Vec<LocalFrame> = Vec::new();
        let mut i: usize = 0;
        while i < max_locals
            invariant
                i <= max_locals,
                locale_variables@ =~= Seq::new(i as nat, |x: int| LocalFrame::Empty),
            decreases max_locals - i,
        {
            locale_variables.push(LocalFrame::Empty);
            i = i + 1;
            proof {
                assert(locale_variables@ =~= Seq::new(i as nat, |x: int| LocalFrame::Empty));
            }
        }
        let f = Frame { code: File::new(code), operand_stack: Vec::new(), locale_variables };
        proof {
            assert(f@.stack =~= Seq::<OperandFrameView>::empty());
        }
        f
    }

    /// Reads the byte at the program counter and advances past it.
    pub fn get_u1(&mut self) -> (r: Result<u8, VmError>)
        ensures
            final(self)@.code == old(self)@.code,
            final(self)@.stack == old(self)@.stack,
            final(self)@.locals == old(self)@.locals,
            old(self)@.pc + 1 <= old(self)@.code.len() ==> {
                &&& r matches Ok(b) && b == old(self)@.code[old(self)@.pc]
                &&& final(self)@.pc == old(self)@.pc + 1
            },
            old(self)@.pc + 1 > old(self)@.code.len() ==> {
                &&& r matches Err(e) && e == VmError::MalformedInput
                &&& final(self)@.pc == old(self)@.pc
            },
    {
        self.code.get_u1()
    }

    /// Reads a two-byte big-endian word at the program counter and advances
    /// past it.
    pub fn get_u2(&mut self) -> (r: Result<u16, VmError>)
        ensures
            final(self)@.code == old(self)@.code,
            final(self)@.stack == old(self)@.stack,
            final(self)@.locals == old(self)@.locals,
            old(self)@.pc + 2 <= old(self)@.code.len() ==> {
                &&& r matches Ok(v) && v == be_u16(old(self)@.code, old(self)@.pc)
                &&& final(self)@.pc == old(self)@.pc + 2
            },
            old(self)@.pc + 2 > old(self)@.code.len() ==> {
                &&& r matches Err(e) && e == VmError::MalformedInput
                &&& final(self)@.pc == old(self)@.pc
            },
    {
        self.code.get_u2()
    }

    /// Pushes a value onto the operand stack.
    pub fn push_operand(&mut self, operand: OperandFrame)
        ensures
            final(self)@.code == old(self)@.code,
            final(self)@.pc == old(self)@.pc,
            final(self)@.locals == old(self)@.locals,
            final(self)@.stack == old(self)@.stack.push(operand@),
    {
        let ghost o = operand@;
        self.operand_stack.push(operand);
        proof {
            assert(self@.stack =~= old(self)@.stack.push(o));
        }
    }

    /// Pops the top of the operand stack; an empty stack is an interpreter
    /// invariant violation.
    pub fn pop_operand(&mut self) -> (r: Result<OperandFrame, VmError>)
        ensures
            final(self)@.code == old(self)@.code,
            final(self)@.pc == old(self)@.pc,
            final(self)@.locals == old(self)@.locals,
            old(self)@.stack.len() > 0 ==> {
                &&& r matches Ok(o) && o@ == old(self)@.stack.last()
                &&& final(self)@.stack == old(self)@.stack.drop_last()
            },
            old(self)@.stack.len() == 0 ==> {
                &&& r matches Err(e) && e == VmError::InvariantViolation
                &&& final(self)@.stack == old(self)@.stack
            },
    {
        match self.operand_stack.pop() {
            Some(o) => {
                proof {
                    assert(self@.stack =~= old(self)@.stack.drop_last());
                }
                Ok(o)
            },
            None => Err(VmError::InvariantViolation),
        }
    }

    /// How many operands the stack holds.
    pub fn stack_len(&self) -> (r: usize)
        ensures
            r == self@.stack.len(),
    {
        self.operand_stack.len()
    }

    /// Writes a local slot; an index past the slot array is an interpreter
    /// invariant violation.
    pub fn store_locale_variable(&mut self, index: usize, value: LocalFrame) -> (r: Result<
        (),
        VmError,
    >)
        ensures
            final(self)@.code == old(self)@.code,
            final(self)@.pc == old(self)@.pc,
            final(self)@.stack == old(self)@.stack,
            index < old(self)@.locals.len() ==> {
                &&& r is Ok
                &&& final(self)@.locals == old(self)@.locals.update(index as int, value)
            },
            index >= old(self)@.locals.len() ==> {
                &&& r matches Err(e) && e == VmError::InvariantViolation
                &&& final(self)@.locals == old(self)@.locals
            },
    {
        if index < self.locale_variables.len() {
            self.locale_variables[index] = value;
            Ok(())
        } else {
            Err(VmError::InvariantViolation)
        }
    }

    /// Reads a local slot; an index past the slot array is an interpreter
    /// invariant violation.
    pub fn load_locale_variable(&mut self, index: usize) -> (r: Result<LocalFrame, VmError>)
        ensures
            final(self)@ == old(self)@,
            index < old(self)@.locals.len() ==> (r matches Ok(v) && v == old(self)@.locals[index as int]),
            index >= old(self)@.locals.len() ==> (r matches Err(e) && e
                == VmError::InvariantViolation),
    {
        if index < self.locale_variables.len() {
            Ok(self.locale_variables[index])
        } else {
            Err(VmError::InvariantViolation)
        }
    }

    /// Moves the program counter by `offset` relative to its current
    /// position; a target outside the code lands at the code's end, where
    /// the run loop stops.
    pub fn offset_code(&mut self, offset: isize)
        ensures
            final(self)@.code == old(self)@.code,
            final(self)@.stack == old(self)@.stack,
            final(self)@.locals == old(self)@.locals,
            final(self)@.pc == jump_target(
                old(self)@.code.len() as int,
                old(self)@.pc,
                offset as int,
            ),
    {
        self.code.offset_pointer(offset);
    }

    /// Whether the program counter still points at an instruction byte.
    pub fn has_next(&self) -> (r: bool)
        ensures
            r == (self@.pc < self@.code.len()),
    {
        self.code.has_next()
    }
}

/// What a handler tells the run loop: fall through to the next instruction,
/// end this activation (with an optional result), or call the method behind
/// a pool index.
pub enum JVMEvent {
    Return(Option<OperandFrame>),
    InvokeMethod(usize),
    Continue,
}

/// The mathematical content of a control event.
pub enum JVMEventView {
    Return(Option<OperandFrameView>),
    InvokeMethod(int),
    Continue,
}

impl View for JVMEvent {
    type V = JVMEventView;

    open spec fn view(&self) -> JVMEventView {
        match self {
            JVMEvent::Return(o) => JVMEventView::Return(
                match o {
                    Some(v) => Some(v@),
                    None => None,
                },
            ),
            JVMEvent::InvokeMethod(i) => JVMEventView::InvokeMethod(*i as int),
            JVMEvent::Continue => JVMEventView::Continue,
        }
    }
}

/// The identity of an instruction's behaviour: a closed union, so that
/// dispatch is a total function the machine's semantics can speak about.
#[derive(Clone, Copy, Debug, PartialEq, Eq, Structural)]
pub enum HandlerKind {
    Bipush,
    Istore,
    IstoreN(u8),
    Iload,
    IloadN(u8),
    IconstI(i32),
    Iadd,
    Imul,
    Isub,
    Idiv,
    Irem,
    Ifne,
    IfIcmpeq,
    IfIcmpne,
    IfIcmplt,
    IfIcmpge,
    Iinc,
    Ireturn,
    GetStatic,
    Ldc,
    InvokeVirtual,
    ReturnVoid,
    Goto,
}

/// A registered instruction: its display name and its behaviour.
pub struct Instruction {
    name: String,
    handler: HandlerKind,
}

/// The mathematical content of a registered instruction.
pub struct InstructionView {
    pub name: Seq<char>,
    pub handler: HandlerKind,
}

impl View for Instruction {
    type V = InstructionView;

    closed spec fn view(&self) -> InstructionView {
        InstructionView { name: self.name@, handler: self.handler }
    }
}

impl Instruction {
    pub fn new(name: String, handler: HandlerKind) -> (r: Instruction)
        ensures
            r@.name == name@,
            r@.handler == handler,
    {
        Instruction { name, handler }
    }

    pub fn get_handler(&self) -> (r: HandlerKind)
        ensures
            r == self@.handler,
    {
        self.handler
    }

    pub fn get_name(&self) -> (r: &String)
        ensures
            r@ == self@.name,
    {
        &self.name
    }
}

/// A source of instruction definitions: a module hands the registry a finite
/// list of opcode-to-instruction pairs, described exactly by its
/// `instructions_view`.
pub trait InstructionModule {
    spec fn instructions_view(&self) -> Seq<(u8, InstructionView)>;

    fn get_instructions(&self) -> (r: Vec<(u8, Instruction)>)
        ensures
            r@.map_values(|p: (u8, Instruction)| (p.0, p.1@)) == self.instructions_view(),
    ;
}

/// Something that owns a method list (the class itself).
pub trait ContainsMethods {
    spec fn methods_view(&self) -> Seq<MethodInfoView>;

    fn get_methods(&self) -> (r: &Vec<MethodInfo>)
        ensures
            r@.map_values(|m: MethodInfo| m@) == self.methods_view(),
    ;
}

/// Something that owns an attribute list (a method record).
pub trait ContainsAttributes {
    spec fn attributes_view(&self) -> Seq<AttributeInfoView>;

    fn get_attributes(&self) -> (r: &Vec<crate::attribute_info::AttributeInfo>)
        ensures
            r@.map_values(|a: crate::attribute_info::AttributeInfo| a@) == self.attributes_view(),
    ;
}

/// Whether two byte buffers hold the same bytes.
pub fn bytes_eq(a: &Vec<u8>, b: &Vec<u8>) -> (r: bool)
    ensures
        r == (a@ == b@),
{
    if a.len() != b.len() {
        proof {
            assert(a@.len() != b@.len());
        }
        return false;
    }
    let mut i: usize = 0;
    while i < a.len()
        invariant
            i <= a@.len(),
            a@.len() == b@.len(),
            forall|j: int| 0 <= j < i ==> a@[j] == b@[j],
        decreases a@.len() - i,
    {
        if a[i] != b[i] {
            return false;
        }
        i = i + 1;
    }
    proof {
        assert(a@ =~= b@);
    }
    true
}

/// Whether the method's name entry is the text `name`.
pub open spec fn method_matches(
    pool: Seq<ConstTypeView>,
    m: MethodInfoView,
    name: Seq<u8>,
) -> bool {
    pool_has(pool, m.name_index as int) && match pool[m.name_index - 1] {
        ConstTypeView::Utf8(b) => b == name,
        _ => false,
    }
}

/// The methods of `ms` whose name entry is the text `name`, in order.
pub open spec fn filter_methods(
    pool: Seq<ConstTypeView>,
    ms: Seq<MethodInfoView>,
    name: Seq<u8>,
) -> Seq<MethodInfoView>
    decreases ms.len(),
{
    if ms.len() == 0 {
        Seq::empty()
    } else {
        let rest = filter_methods(pool, ms.drop_last(), name);
        if method_matches(pool, ms.last(), name) {
            rest.push(ms.last())
        } else {
            rest
        }
    }
}

/// Whether the attribute's name entry is the text `name`.
pub open spec fn attribute_matches(
    pool: Seq<ConstTypeView>,
    a: AttributeInfoView,
    name: Seq<u8>,
) -> bool {
    pool_has(pool, a.attribute_name_index as int) && match pool[a.attribute_name_index - 1] {
        ConstTypeView::Utf8(b) => b == name,
        _ => false,
    }
}

/// The attributes of `attrs` whose name entry is the text `name`, in order.
pub open spec fn filter_attributes(
    pool: Seq<ConstTypeView>,
    attrs: Seq<AttributeInfoView>,
    name: Seq<u8>,
) -> Seq<AttributeInfoView>
    decreases attrs.len(),
{
    if attrs.len() == 0 {
        Seq::empty()
    } else {
        let rest = filter_attributes(pool, attrs.drop_last(), name);
        if attribute_matches(pool, attrs.last(), name) {
            rest.push(attrs.last())
        } else {
            rest
        }
    }
}

/// Whether every method's name index lies inside the pool, so that each can
/// be looked up at all.
pub open spec fn all_method_names_in_pool(
    pool: Seq<ConstTypeView>,
    ms: Seq<MethodInfoView>,
) -> bool {
    forall|j: int| 0 <= j < ms.len() ==> pool_has(pool, (#[trigger] ms[j]).name_index as int)
}

/// Whether every attribute's name index lies inside the pool.
pub open spec fn all_attribute_names_in_pool(
    pool: Seq<ConstTypeView>,
    attrs: Seq<AttributeInfoView>,
) -> bool {
    forall|j: int|
        0 <= j < attrs.len() ==> pool_has(pool, (#[trigger] attrs[j]).attribute_name_index as int)
}

/// The methods of `data` whose name is the text `name`, in declaration
/// order. A method whose name index lies outside the pool is an interpreter
/// invariant violation, as the unchecked lookup it stands for would be.
pub fn find_methods_by_name<'a, T: ContainsMethods>(
    class_file: &ClassFile,
    data: &'a T,
    name: Vec<u8>,
) -> (r: Result<Vec<&'a MethodInfo>, VmError>)
    ensures
        all_method_names_in_pool(class_file@.constant_pool, data.methods_view()) ==> (r matches Ok(
            v,
        ) && v@.map_values(|m: &'a MethodInfo| m@) == filter_methods(
            class_file@.constant_pool,
            data.methods_view(),
            name@,
        )),
        !all_method_names_in_pool(class_file@.constant_pool, data.methods_view()) ==> (r matches Err(
            e,
        ) && e == VmError::InvariantViolation),
{
    let ghost pool = class_file@.constant_pool;
    let ghost ms = data.methods_view();
    let methods = data.get_methods();
    let mut out: Vec<&'a MethodInfo> = Vec::new();
    let mut i: usize = 0;
    proof {
        assert(out@.map_values(|m: &'a MethodInfo| m@) =~= Seq::<MethodInfoView>::empty());
        assert(filter_methods(pool, ms.subrange(0, 0), name@) =~= Seq::<MethodInfoView>::empty());
    }
    while i < methods.len()
        invariant
            i <= methods@.len(),
            methods@.map_values(|m: MethodInfo| m@) == ms,
            ms == data.methods_view(),
            pool == class_file@.constant_pool,
            forall|j: int| 0 <= j < i ==> pool_has(pool, (#[trigger] ms[j]).name_index as int),
            out@.map_values(|m: &'a MethodInfo| m@) == filter_methods(
                pool,
                ms.subrange(0, i as int),
                name@,
            ),
        decreases methods@.len() - i,
    {
        let m: &'a MethodInfo = &methods[i];
        let ni = m.get_name_index() as usize;
        let matched: bool = match class_file.get_constant(ni) {
            Ok(c) => match c {
                ConstType::Utf8(bytes) => bytes_eq(bytes, &name),
                _ => false,
            },
            Err(e) => {
                proof {
                    assert(ms[i as int] == m@);
                    assert(!pool_has(pool, ms[i as int].name_index as int));
                    assert(!all_method_names_in_pool(pool, ms));
                }
                return Err(VmError::InvariantViolation);
            },
        };
        proof {
            assert(ms[i as int] == m@);
            assert(matched == method_matches(pool, ms[i as int], name@));
            assert(ms.subrange(0, i + 1 as int).drop_last() =~= ms.subrange(0, i as int));
            assert(ms.subrange(0, i + 1 as int).last() == ms[i as int]);
        }
        if matched {
            proof {
                assert(out@.push(m).map_values(|x: &'a MethodInfo| x@) =~= out@.map_values(
                    |x: &'a MethodInfo| x@,
                ).push(m@));
            }
            out.push(m);
        }
        i = i + 1;
    }
    proof {
        assert(ms.subrange(0, ms.len() as int) =~= ms);
    }
    Ok(out)
}

/// The attributes of `data` whose name is the text `name`, in declaration
/// order. An attribute whose name index lies outside the pool is an
/// interpreter invariant violation.
pub fn find_attributes_by_name<'a, T: ContainsAttributes>(
    class_file: &ClassFile,
    data: &'a T,
    name: Vec<u8>,
) -> (r: Result<Vec<&'a crate::attribute_info::AttributeInfo>, VmError>)
    ensures
        all_attribute_names_in_pool(class_file@.constant_pool, data.attributes_view()) ==> (
        r matches Ok(v) && v@.map_values(|a: &'a crate::attribute_info::AttributeInfo| a@)
            == filter_attributes(class_file@.constant_pool, data.attributes_view(), name@)),
        !all_attribute_names_in_pool(class_file@.constant_pool, data.attributes_view()) ==> (
        r matches Err(e) && e == VmError::InvariantViolation),
{
    let ghost pool = class_file@.constant_pool;
    let ghost attrs = data.attributes_view();
    let attributes = data.get_attributes();
    let mut out: Vec<&'a crate::attribute_info::AttributeInfo> = Vec::new();
    let mut i: usize = 0;
    proof {
        assert(out@.map_values(|a: &'a crate::attribute_info::AttributeInfo| a@)
            =~= Seq::<AttributeInfoView>::empty());
        assert(filter_attributes(pool, attrs.subrange(0, 0), name@)
            =~= Seq::<AttributeInfoView>::empty());
    }
    while i < attributes.len()
        invariant
            i <= attributes@.len(),
            attributes@.map_values(|a: crate::attribute_info::AttributeInfo| a@) == attrs,
            attrs == data.attributes_view(),
            pool == class_file@.constant_pool,
            forall|j: int|
                0 <= j < i ==> pool_has(pool, (#[trigger] attrs[j]).attribute_name_index as int),
            out@.map_values(|a: &'a crate::attribute_info::AttributeInfo| a@) == filter_attributes(
                pool,
                attrs.subrange(0, i as int),
                name@,
            ),
        decreases attributes@.len() - i,
    {
        let a: &'a crate::attribute_info::AttributeInfo = &attributes[i];
        let ni = a.get_attribute_name_index() as usize;
        let matched: bool = match class_file.get_constant(ni) {
            Ok(c) => match c {
                ConstType::Utf8(bytes) => bytes_eq(bytes, &name),
                _ => false,
            },
            Err(e) => {
                proof {
                    assert(attrs[i as int] == a@);
                    assert(!pool_has(pool, attrs[i as int].attribute_name_index as int));
                    assert(!all_attribute_names_in_pool(pool, attrs));
                }
                return Err(VmError::InvariantViolation);
            },
        };
        proof {
            assert(attrs[i as int] == a@);
            assert(matched == attribute_matches(pool, attrs[i as int], name@));
            assert(attrs.subrange(0, i + 1 as int).drop_last() =~= attrs.subrange(0, i as int));
            assert(attrs.subrange(0, i + 1 as int).last() == attrs[i as int]);
        }
        if matched {
            proof {
                assert(out@.push(a).map_values(|x: &'a crate::attribute_info::AttributeInfo| x@)
                    =~= out@.map_values(|x: &'a crate::attribute_info::AttributeInfo| x@).push(a@));
            }
            out.push(a);
        }
        i = i + 1;
    }
    proof {
        assert(attrs.subrange(0, attrs.len() as int) =~= attrs);
    }
    Ok(out)
}

/// The value of a byte read as a signed quantity.
pub open spec fn sign8(b: u8) -> i32 {
    if b < 128 {
        b as i32
    } else {
        (b - 256) as i32
    }
}

/// The value of a two-byte word read as a signed quantity.
pub open spec fn sign16(w: int) -> int {
    if w < 0x8000 {
        w
    } else {
        w - 0x10000
    }
}

/// 32-bit two's-complement addition.
pub open spec fn wrap_add(a: i32, b: i32) -> i32 {
    if a + b > i32::MAX {
        (a + b - 0x1_0000_0000) as i32
    } else if a + b < i32::MIN {
        (a + b + 0x1_0000_0000) as i32
    } else {
        (a + b) as i32
    }
}

/// 32-bit two's-complement subtraction.
pub open spec fn wrap_sub(a: i32, b: i32) -> i32 {
    if a - b > i32::MAX {
        (a - b - 0x1_0000_0000) as i32
    } else if a - b < i32::MIN {
        (a - b + 0x1_0000_0000) as i32
    } else {
        (a - b) as i32
    }
}

/// 32-bit two's-complement multiplication.
pub open spec fn wrap_mul(a: i32, b: i32) -> i32 {
    if (a * b) % 0x1_0000_0000 > i32::MAX {
        ((a * b) % 0x1_0000_0000 - 0x1_0000_0000) as i32
    } else {
        ((a * b) % 0x1_0000_0000) as i32
    }
}

/// The magnitude of an integer.
pub open spec fn iabs(a: int) -> int {
    if a < 0 {
        -a
    } else {
        a
    }
}

/// Division truncated toward zero, as the machine's division instruction
/// computes it.
pub open spec fn trunc_div(a: int, b: int) -> int {
    if (a < 0) != (b < 0) {
        -(iabs(a) / iabs(b))
    } else {
        iabs(a) / iabs(b)
    }
}

/// The remainder that pairs with `trunc_div`: it carries the dividend's sign.
pub open spec fn trunc_rem(a: int, b: int) -> int {
    if a < 0 {
        -(iabs(a) % iabs(b))
    } else {
        iabs(a) % iabs(b)
    }
}

/// The class name of the one static field the machine serves.
pub open spec fn system_class_name() -> Seq<u8> {
    seq![0x6au8, 0x61, 0x76, 0x61, 0x2f, 0x6c, 0x61, 0x6e, 0x67, 0x2f, 0x53, 0x79, 0x73, 0x74, 0x65, 0x6d]
}

/// The member name of that field.
pub open spec fn out_field_name() -> Seq<u8> {
    seq![0x6fu8, 0x75, 0x74]
}

/// The class name of the one virtual call target the machine serves.
pub open spec fn print_stream_class_name() -> Seq<u8> {
    seq![0x6au8, 0x61, 0x76, 0x61, 0x2f, 0x69, 0x6f, 0x2f, 0x50, 0x72, 0x69, 0x6e, 0x74, 0x53, 0x74, 0x72, 0x65, 0x61, 0x6d]
}

/// The member name of that call target.
pub open spec fn println_name() -> Seq<u8> {
    seq![0x70u8, 0x72, 0x69, 0x6e, 0x74, 0x6c, 0x6e]
}

/// The name of the attribute that holds a method body.
pub open spec fn code_attribute_name() -> Seq<u8> {
    seq![0x43u8, 0x6f, 0x64, 0x65]
}

/// The name of the entry method.
pub open spec fn main_name() -> Seq<u8> {
    seq![0x6du8, 0x61, 0x69, 0x6e]
}

/// What one handler did: the frame it left behind, the control event it
/// raised and the lines it printed; or the error that aborts the run.
pub enum StepOutcome {
    Done(FrameView, JVMEventView, Seq<OutputItemView>),
    Fail(VmError),
}

/// One byte read at the program counter.
pub open spec fn read_u1_spec(f: FrameView) -> Option<(u8, FrameView)> {
    if f.pc + 1 <= f.code.len() {
        Some(
            (
                f.code[f.pc],
                FrameView { code: f.code, pc: f.pc + 1, stack: f.stack, locals: f.locals },
            ),
        )
    } else {
        None
    }
}

/// One big-endian word read at the program counter.
pub open spec fn read_u2_spec(f: FrameView) -> Option<(int, FrameView)> {
    if f.pc + 2 <= f.code.len() {
        Some(
            (
                be_u16(f.code, f.pc),
                FrameView { code: f.code, pc: f.pc + 2, stack: f.stack, locals: f.locals },
            ),
        )
    } else {
        None
    }
}

/// The frame with one more operand on its stack.
pub open spec fn push_op(f: FrameView, o: OperandFrameView) -> FrameView {
    FrameView { code: f.code, pc: f.pc, stack: f.stack.push(o), locals: f.locals }
}

/// The frame with its top operand removed.
pub open spec fn drop_top(f: FrameView) -> FrameView {
    FrameView { code: f.code, pc: f.pc, stack: f.stack.drop_last(), locals: f.locals }
}

/// The frame with one local slot overwritten.
pub open spec fn set_local(f: FrameView, ix: int, v: LocalFrame) -> FrameView {
    FrameView { code: f.code, pc: f.pc, stack: f.stack, locals: f.locals.update(ix, v) }
}

/// The frame jumped by `delta` relative to the program counter.
pub open spec fn branch_by(f: FrameView, delta: int) -> FrameView {
    FrameView {
        code: f.code,
        pc: jump_target(f.code.len() as int, f.pc, delta),
        stack: f.stack,
        locals: f.locals,
    }
}

/// An integer popped off the operand stack: an empty stack or an operand of
/// another kind is an interpreter invariant violation.
pub open spec fn pop_int_spec(f: FrameView) -> Result<(i32, FrameView), VmError> {
    if f.stack.len() == 0 {
        Err(VmError::InvariantViolation)
    } else {
        match f.stack.last() {
            OperandFrameView::Int(v) => Ok((v, drop_top(f))),
            _ => Err(VmError::InvariantViolation),
        }
    }
}

/// Popping an integer and storing it in local slot `ix`.
pub open spec fn store_int_spec(f: FrameView, ix: int) -> StepOutcome {
    match pop_int_spec(f) {
        Err(e) => StepOutcome::Fail(e),
        Ok((v, f1)) => if 0 <= ix < f1.locals.len() {
            StepOutcome::Done(set_local(f1, ix, LocalFrame::Int(v)), JVMEventView::Continue, Seq::empty())
        } else {
            StepOutcome::Fail(VmError::InvariantViolation)
        },
    }
}

/// Pushing the integer held in local slot `ix` onto the stack.
pub open spec fn load_int_spec(f: FrameView, ix: int) -> StepOutcome {
    if 0 <= ix < f.locals.len() {
        match f.locals[ix] {
            LocalFrame::Int(v) => StepOutcome::Done(
                push_op(f, OperandFrameView::Int(v)),
                JVMEventView::Continue,
                Seq::empty(),
            ),
            _ => StepOutcome::Fail(VmError::InvariantViolation),
        }
    } else {
        StepOutcome::Fail(VmError::InvariantViolation)
    }
}

/// Two integers popped off the stack: first the right-hand operand (the top),
/// then the left-hand one.
pub open spec fn pop2_ints_spec(f: FrameView) -> Result<((i32, i32), FrameView), VmError> {
    match pop_int_spec(f) {
        Err(e) => Err(e),
        Ok((b, f1)) => match pop_int_spec(f1) {
            Err(e) => Err(e),
            Ok((a, f2)) => Ok(((a, b), f2)),
        },
    }
}

/// An arithmetic step: pop right then left, push the operation's result.
pub open spec fn arith_spec(f: FrameView, h: HandlerKind) -> StepOutcome {
    match pop2_ints_spec(f) {
        Err(e) => StepOutcome::Fail(e),
        Ok(((a, b), f2)) => match h {
            HandlerKind::Iadd => StepOutcome::Done(
                push_op(f2, OperandFrameView::Int(wrap_add(a, b))),
                JVMEventView::Continue,
                Seq::empty(),
            ),
            HandlerKind::Imul => StepOutcome::Done(
                push_op(f2, OperandFrameView::Int(wrap_mul(a, b))),
                JVMEventView::Continue,
                Seq::empty(),
            ),
            HandlerKind::Isub => StepOutcome::Done(
                push_op(f2, OperandFrameView::Int(wrap_sub(a, b))),
                JVMEventView::Continue,
                Seq::empty(),
            ),
            HandlerKind::Idiv => if b == 0 || (a == i32::MIN && b == -1) {
                StepOutcome::Fail(VmError::InvariantViolation)
            } else {
                StepOutcome::Done(
                    push_op(f2, OperandFrameView::Int(trunc_div(a as int, b as int) as i32)),
                    JVMEventView::Continue,
                    Seq::empty(),
                )
            },
            HandlerKind::Irem => if b == 0 || (a == i32::MIN && b == -1) {
                StepOutcome::Fail(VmError::InvariantViolation)
            } else {
                StepOutcome::Done(
                    push_op(f2, OperandFrameView::Int(trunc_rem(a as int, b as int) as i32)),
                    JVMEventView::Continue,
                    Seq::empty(),
                )
            },
            _ => StepOutcome::Fail(VmError::InvariantViolation),
        },
    }
}

/// A comparison branch: pop right then left, read the offset word, and jump
/// by `offset - 3` (back to the opcode's own position plus the raw offset)
/// when the condition holds.
pub open spec fn cmp_branch_spec(f: FrameView, h: HandlerKind) -> StepOutcome {
    match pop2_ints_spec(f) {
        Err(e) => StepOutcome::Fail(e),
        Ok(((a, b), f2)) => match read_u2_spec(f2) {
            None => StepOutcome::Fail(VmError::MalformedInput),
            Some((o, f3)) => {
                let taken = match h {
                    HandlerKind::IfIcmpeq => a == b,
                    HandlerKind::IfIcmpne => a != b,
                    HandlerKind::IfIcmplt => a < b,
                    HandlerKind::IfIcmpge => a >= b,
                    _ => false,
                };
                if taken {
                    StepOutcome::Done(branch_by(f3, o - 3), JVMEventView::Continue, Seq::empty())
                } else {
                    StepOutcome::Done(f3, JVMEventView::Continue, Seq::empty())
                }
            },
        },
    }
}

/// What the static-field instruction does: resolve the field reference, and
/// push the output-stream handle when it names the one well-known stream.
pub open spec fn getstatic_spec(pool: Seq<ConstTypeView>, f: FrameView) -> StepOutcome {
    match read_u2_spec(f) {
        None => StepOutcome::Fail(VmError::MalformedInput),
        Some((ix, f1)) => if !pool_has(pool, ix) {
            StepOutcome::Fail(VmError::InvariantViolation)
        } else {
            match pool[ix - 1] {
                ConstTypeView::Fieldref(ci, nti) => match crate::class_file::spec_class_name(
                    pool,
                    ci as int,
                ) {
                    None => StepOutcome::Fail(
                        crate::class_file::spec_class_name_err(pool, ci as int),
                    ),
                    Some(cn) => match crate::class_file::spec_member_name(pool, nti as int) {
                        None => StepOutcome::Fail(
                            crate::class_file::spec_member_name_err(pool, nti as int),
                        ),
                        Some(mn) => if cn == system_class_name() && mn == out_field_name() {
                            StepOutcome::Done(
                                push_op(f1, OperandFrameView::StdOut),
                                JVMEventView::Continue,
                                Seq::empty(),
                            )
                        } else {
                            StepOutcome::Fail(VmError::UnsupportedOperation)
                        },
                    },
                },
                _ => StepOutcome::Fail(VmError::MalformedInput),
            }
        },
    }
}

/// What the virtual-call instruction does: resolve the method reference, and
/// print the value below the stream handle when it names the one well-known
/// println target.
pub open spec fn invokevirtual_spec(pool: Seq<ConstTypeView>, f: FrameView) -> StepOutcome {
    match read_u2_spec(f) {
        None => StepOutcome::Fail(VmError::MalformedInput),
        Some((ix, f1)) => if !pool_has(pool, ix) {
            StepOutcome::Fail(VmError::InvariantViolation)
        } else {
            match pool[ix - 1] {
                ConstTypeView::Methodref(ci, nti) => match crate::class_file::spec_class_name(
                    pool,
                    ci as int,
                ) {
                    None => StepOutcome::Fail(
                        crate::class_file::spec_class_name_err(pool, ci as int),
                    ),
                    Some(cn) => match crate::class_file::spec_member_name(pool, nti as int) {
                        None => StepOutcome::Fail(
                            crate::class_file::spec_member_name_err(pool, nti as int),
                        ),
                        Some(mn) => if cn == print_stream_class_name() && mn == println_name() {
                            if f1.stack.len() < 2 {
                                StepOutcome::Fail(VmError::InvariantViolation)
                            } else {
                                let value = f1.stack.last();
                                let stream = f1.stack[f1.stack.len() - 2];
                                let f2 = drop_top(drop_top(f1));
                                match stream {
                                    OperandFrameView::StdOut => match value {
                                        OperandFrameView::Constant(c) => match c {
                                            ConstTypeView::Str(si) => if !pool_has(
                                                pool,
                                                si as int,
                                            ) {
                                                StepOutcome::Fail(VmError::InvariantViolation)
                                            } else {
                                                match pool[si - 1] {
                                                    ConstTypeView::Utf8(bytes) => StepOutcome::Done(
                                                        f2,
                                                        JVMEventView::Continue,
                                                        seq![OutputItemView::Utf8(bytes)],
                                                    ),
                                                    _ => StepOutcome::Fail(
                                                        VmError::MalformedInput,
                                                    ),
                                                }
                                            },
                                            _ => StepOutcome::Fail(
                                                VmError::UnsupportedOperation,
                                            ),
                                        },
                                        OperandFrameView::Int(i) => StepOutcome::Done(
                                            f2,
                                            JVMEventView::Continue,
                                            seq![OutputItemView::Int(i)],
                                        ),
                                        _ => StepOutcome::Fail(VmError::UnsupportedOperation),
                                    },
                                    _ => StepOutcome::Fail(VmError::UnsupportedOperation),
                                }
                            }
                        } else {
                            StepOutcome::Fail(VmError::UnsupportedOperation)
                        },
                    },
                },
                _ => StepOutcome::Fail(VmError::MalformedInput),
            }
        },
    }
}

/// The byte-push instruction: the next code byte, sign-extended.
pub open spec fn bipush_spec(f: FrameView) -> StepOutcome {
    match read_u1_spec(f) {
        None => StepOutcome::Fail(VmError::MalformedInput),
        Some((b, f1)) => StepOutcome::Done(
            push_op(f1, OperandFrameView::Int(sign8(b))),
            JVMEventView::Continue,
            Seq::empty(),
        ),
    }
}

/// The wide store instruction: a two-byte slot index read from the code,
/// then a pop-and-store.
pub open spec fn istore_spec(f: FrameView) -> StepOutcome {
    match read_u2_spec(f) {
        None => StepOutcome::Fail(VmError::MalformedInput),
        Some((ix, f1)) => store_int_spec(f1, ix),
    }
}

/// The wide load instruction: a two-byte slot index read from the code, then
/// a load-and-push.
pub open spec fn iload_spec(f: FrameView) -> StepOutcome {
    match read_u2_spec(f) {
        None => StepOutcome::Fail(VmError::MalformedInput),
        Some((ix, f1)) => load_int_spec(f1, ix),
    }
}

/// The branch-if-nonzero instruction: pop the test value, read the offset
/// word, jump by `offset - 3` when the value is not zero.
pub open spec fn ifne_spec(f: FrameView) -> StepOutcome {
    match pop_int_spec(f) {
        Err(e) => StepOutcome::Fail(e),
        Ok((v, f1)) => match read_u2_spec(f1) {
            None => StepOutcome::Fail(VmError::MalformedInput),
            Some((o, f2)) => if v != 0 {
                StepOutcome::Done(branch_by(f2, o - 3), JVMEventView::Continue, Seq::empty())
            } else {
                StepOutcome::Done(f2, JVMEventView::Continue, Seq::empty())
            },
        },
    }
}

/// The increment instruction: local slot `index` grows by the signed byte
/// constant, with two's-complement wrap-around.
pub open spec fn iinc_spec(f: FrameView) -> StepOutcome {
    match read_u1_spec(f) {
        None => StepOutcome::Fail(VmError::MalformedInput),
        Some((ix, f1)) => match read_u1_spec(f1) {
            None => StepOutcome::Fail(VmError::MalformedInput),
            Some((c, f2)) => if 0 <= ix < f2.locals.len() {
                match f2.locals[ix as int] {
                    LocalFrame::Int(v) => StepOutcome::Done(
                        set_local(f2, ix as int, LocalFrame::Int(wrap_add(v, sign8(c)))),
                        JVMEventView::Continue,
                        Seq::empty(),
                    ),
                    _ => StepOutcome::Fail(VmError::InvariantViolation),
                }
            } else {
                StepOutcome::Fail(VmError::InvariantViolation)
            },
        },
    }
}

/// The value-returning return: pop the result and end the activation.
pub open spec fn ireturn_spec(f: FrameView) -> StepOutcome {
    if f.stack.len() == 0 {
        StepOutcome::Fail(VmError::InvariantViolation)
    } else {
        StepOutcome::Done(drop_top(f), JVMEventView::Return(Some(f.stack.last())), Seq::empty())
    }
}

/// The constant-push instruction: a snapshot of the pool entry named by the
/// next code byte.
pub open spec fn ldc_spec(pool: Seq<ConstTypeView>, f: FrameView) -> StepOutcome {
    match read_u1_spec(f) {
        None => StepOutcome::Fail(VmError::MalformedInput),
        Some((b, f1)) => if pool_has(pool, b as int) {
            StepOutcome::Done(
                push_op(f1, OperandFrameView::Constant(pool[b - 1])),
                JVMEventView::Continue,
                Seq::empty(),
            )
        } else {
            StepOutcome::Fail(VmError::InvariantViolation)
        },
    }
}

/// The unconditional jump: it reads its offset as a signed word, moves the
/// cursor by `offset - 3`, and then ends the activation with no result, as
/// the machine observably does.
pub open spec fn goto_spec(f: FrameView) -> StepOutcome {
    match read_u2_spec(f) {
        None => StepOutcome::Fail(VmError::MalformedInput),
        Some((o, f1)) => StepOutcome::Done(
            branch_by(f1, sign16(o) - 3),
            JVMEventView::Return(None),
            Seq::empty(),
        ),
    }
}

/// The semantics of one handler applied to a frame whose program counter
/// stands just past the opcode byte.
pub open spec fn step_handler(h: HandlerKind, class: ClassFileView, f: FrameView) -> StepOutcome {
    let pool = class.constant_pool;
    match h {
        HandlerKind::Bipush => bipush_spec(f),
        HandlerKind::Istore => istore_spec(f),
        HandlerKind::IstoreN(n) => store_int_spec(f, n as int),
        HandlerKind::Iload => iload_spec(f),
        HandlerKind::IloadN(n) => load_int_spec(f, n as int),
        HandlerKind::IconstI(k) => StepOutcome::Done(
            push_op(f, OperandFrameView::Int(k)),
            JVMEventView::Continue,
            Seq::empty(),
        ),
        HandlerKind::Iadd => arith_spec(f, h),
        HandlerKind::Imul => arith_spec(f, h),
        HandlerKind::Isub => arith_spec(f, h),
        HandlerKind::Idiv => arith_spec(f, h),
        HandlerKind::Irem => arith_spec(f, h),
        HandlerKind::Ifne => ifne_spec(f),
        HandlerKind::IfIcmpeq => cmp_branch_spec(f, h),
        HandlerKind::IfIcmpne => cmp_branch_spec(f, h),
        HandlerKind::IfIcmplt => cmp_branch_spec(f, h),
        HandlerKind::IfIcmpge => cmp_branch_spec(f, h),
        HandlerKind::Iinc => iinc_spec(f),
        HandlerKind::Ireturn => ireturn_spec(f),
        HandlerKind::GetStatic => getstatic_spec(pool, f),
        HandlerKind::Ldc => ldc_spec(pool, f),
        HandlerKind::InvokeVirtual => invokevirtual_spec(pool, f),
        HandlerKind::ReturnVoid => StepOutcome::Done(f, JVMEventView::Return(None), Seq::empty()),
        HandlerKind::Goto => goto_spec(f),
    }
}

/// Whether `v` holds the class name of the well-known output-stream field.
fn is_system_class(v: &Vec<u8>) -> (r: bool)
    ensures
        r == (v@ == system_class_name()),
{
    let w: Vec<u8> = vec![0x6au8, 0x61, 0x76, 0x61, 0x2f, 0x6c, 0x61, 0x6e, 0x67, 0x2f, 0x53, 0x79, 0x73, 0x74, 0x65, 0x6d];
    proof {
        assert(w@ =~= system_class_name());
    }
    bytes_eq(v, &w)
}

/// Whether `v` holds the member name of that field.
fn is_out_field(v: &Vec<u8>) -> (r: bool)
    ensures
        r == (v@ == out_field_name()),
{
    let w: Vec<u8> = vec![0x6fu8, 0x75, 0x74];
    proof {
        assert(w@ =~= out_field_name());
    }
    bytes_eq(v, &w)
}

/// Whether `v` holds the class name of the well-known println target.
fn is_print_stream_class(v: &Vec<u8>) -> (r: bool)
    ensures
        r == (v@ == print_stream_class_name()),
{
    let w: Vec<u8> = vec![0x6au8, 0x61, 0x76, 0x61, 0x2f, 0x69, 0x6f, 0x2f, 0x50, 0x72, 0x69, 0x6e, 0x74, 0x53, 0x74, 0x72, 0x65, 0x61, 0x6d];
    proof {
        assert(w@ =~= print_stream_class_name());
    }
    bytes_eq(v, &w)
}

/// Whether `v` holds the member name of that target.
fn is_println_member(v: &Vec<u8>) -> (r: bool)
    ensures
        r == (v@ == println_name()),
{
    let w: Vec<u8> = vec![0x70u8, 0x72, 0x69, 0x6e, 0x74, 0x6c, 0x6e];
    proof {
        assert(w@ =~= println_name());
    }
    bytes_eq(v, &w)
}

/// One comparison branch run against the frame.
fn run_cmp_branch(h: HandlerKind, frame: &mut Frame) -> (r: Result<JVMEvent, VmError>)
    requires
        h is IfIcmpeq || h is IfIcmpne || h is IfIcmplt || h is IfIcmpge,
    ensures
        match cmp_branch_spec(old(frame)@, h) {
            StepOutcome::Done(f2, ev, outs) => {
                &&& r matches Ok(e) && e@ == ev
                &&& final(frame)@ == f2
                &&& outs == Seq::<OutputItemView>::empty()
            },
            StepOutcome::Fail(er) => r matches Err(e) && e == er,
        },
{
    let param1 = IntegerModule::try_to_pop_integer(frame)?;
    let param2 = IntegerModule::try_to_pop_integer(frame)?;
    let offset = frame.get_u2()?;
    let taken: bool = match h {
        HandlerKind::IfIcmpeq => param2 == param1,
        HandlerKind::IfIcmpne => param2 != param1,
        HandlerKind::IfIcmplt => param2 < param1,
        _ => param2 >= param1,
    };
    if taken {
        frame.offset_code(((offset as i32) - 3) as isize);
    }
    Ok(JVMEvent::Continue)
}

/// One arithmetic instruction run against the frame.
fn run_arith(h: HandlerKind, frame: &mut Frame) -> (r: Result<JVMEvent, VmError>)
    requires
        h is Iadd || h is Imul || h is Isub || h is Idiv || h is Irem,
    ensures
        match arith_spec(old(frame)@, h) {
            StepOutcome::Done(f2, ev, outs) => {
                &&& r matches Ok(e) && e@ == ev
                &&& final(frame)@ == f2
                &&& outs == Seq::<OutputItemView>::empty()
            },
            StepOutcome::Fail(er) => r matches Err(e) && e == er,
        },
{
    let param1 = IntegerModule::try_to_pop_integer(frame)?;
    let param2 = IntegerModule::try_to_pop_integer(frame)?;
    match h {
        HandlerKind::Iadd => {
            frame.push_operand(OperandFrame::Int(param2.wrapping_add(param1)));
            Ok(JVMEvent::Continue)
        },
        HandlerKind::Imul => {
            frame.push_operand(OperandFrame::Int(param2.wrapping_mul(param1)));
            Ok(JVMEvent::Continue)
        },
        HandlerKind::Isub => {
            frame.push_operand(OperandFrame::Int(param2.wrapping_sub(param1)));
            Ok(JVMEvent::Continue)
        },
        HandlerKind::Idiv => {
            if param1 == 0 || (param2 == i32::MIN && param1 == -1) {
                return Err(VmError::InvariantViolation);
            }
            frame.push_operand(OperandFrame::Int(crate::integer_module::idiv_exec(param2, param1)));
            Ok(JVMEvent::Continue)
        },
        _ => {
            if param1 == 0 || (param2 == i32::MIN && param1 == -1) {
                return Err(VmError::InvariantViolation);
            }
            frame.push_operand(OperandFrame::Int(crate::integer_module::irem_exec(param2, param1)));
            Ok(JVMEvent::Continue)
        },
    }
}

/// The static-field instruction run against the frame.
fn run_getstatic(frame: &mut Frame, class_file: &ClassFile) -> (r: Result<JVMEvent, VmError>)
    ensures
        match getstatic_spec(class_file@.constant_pool, old(frame)@) {
            StepOutcome::Done(f2, ev, outs) => {
                &&& r matches Ok(e) && e@ == ev
                &&& final(frame)@ == f2
                &&& outs == Seq::<OutputItemView>::empty()
            },
            StepOutcome::Fail(er) => r matches Err(e) && e == er,
        },
{
    let static_index = frame.get_u2()?;
    let field_ref = class_file.get_constant(static_index as usize)?;
    match field_ref {
        ConstType::Fieldref(class_index, name_and_type_index) => {
            let ci = *class_index;
            let nti = *name_and_type_index;
            let class_name = class_file.get_name_of_class(ci as usize)?;
            let name_of_member = class_file.get_name_of_member(nti as usize)?;
            if is_system_class(&class_name) && is_out_field(&name_of_member) {
                frame.push_operand(OperandFrame::StdOut);
                Ok(JVMEvent::Continue)
            } else {
                Err(VmError::UnsupportedOperation)
            }
        },
        _ => Err(VmError::MalformedInput),
    }
}

/// The virtual-call instruction run against the frame; a recognized call
/// appends what it prints to `output`.
#[verifier::rlimit(60)]
fn run_invokevirtual(
    frame: &mut Frame,
    class_file: &ClassFile,
    output: &mut Vec<OutputItem>,
) -> (r: Result<JVMEvent, VmError>)
    ensures
        match invokevirtual_spec(class_file@.constant_pool, old(frame)@) {
            StepOutcome::Done(f2, ev, outs) => {
                &&& r matches Ok(e) && e@ == ev
                &&& final(frame)@ == f2
                &&& final(output)@.map_values(|o: OutputItem| o@) == old(output)@.map_values(
                    |o: OutputItem| o@,
                ) + outs
            },
            StepOutcome::Fail(er) => {
                &&& r matches Err(e) && e == er
                &&& final(output)@ == old(output)@
            },
        },
{
    let invoke_index = frame.get_u2()?;
    let method_ref = class_file.get_constant(invoke_index as usize)?;
    match method_ref {
        ConstType::Methodref(class_index, name_and_type_index) => {
            let ci = *class_index;
            let nti = *name_and_type_index;
            let class_name = class_file.get_name_of_class(ci as usize)?;
            let name_of_member = class_file.get_name_of_member(nti as usize)?;
            if is_print_stream_class(&class_name) && is_println_member(&name_of_member) {
                if frame.stack_len() < 2 {
                    return Err(VmError::InvariantViolation);
                }
                let param1 = frame.pop_operand()?;
                let param2 = frame.pop_operand()?;
                match param2 {
                    OperandFrame::StdOut => {},
                    _ => {
                        return Err(VmError::UnsupportedOperation);
                    },
                }
                match param1 {
                    OperandFrame::Constant(constant) => match constant {
                        ConstType::Str(string_index) => {
                            let utf8_const = class_file.get_constant(string_index as usize)?;
                            match utf8_const {
                                ConstType::Utf8(bytes) => {
                                    let line = bytes.clone();
                                    proof {
                                        assert(output@.push(OutputItem::Utf8(line)).map_values(
                                            |o: OutputItem| o@,
                                        ) =~= output@.map_values(|o: OutputItem| o@) + seq![
                                            OutputItemView::Utf8(line@),
                                        ]);
                                    }
                                    output.push(OutputItem::Utf8(line));
                                    Ok(JVMEvent::Continue)
                                },
                                _ => Err(VmError::MalformedInput),
                            }
                        },
                        _ => Err(VmError::UnsupportedOperation),
                    },
                    OperandFrame::Int(integer) => {
                        proof {
                            assert(output@.push(OutputItem::Int(integer)).map_values(
                                |o: OutputItem| o@,
                            ) =~= output@.map_values(|o: OutputItem| o@) + seq![
                                OutputItemView::Int(integer),
                            ]);
                        }
                        output.push(OutputItem::Int(integer));
                        Ok(JVMEvent::Continue)
                    },
                    _ => Err(VmError::UnsupportedOperation),
                }
            } else {
                Err(VmError::UnsupportedOperation)
            }
        },
        _ => Err(VmError::MalformedInput),
    }
}

/// The increment instruction run against the frame.
fn run_iinc(frame: &mut Frame) -> (r: Result<JVMEvent, VmError>)
    ensures
        match iinc_spec(old(frame)@) {
            StepOutcome::Done(f2, ev, outs) => {
                &&& r matches Ok(e) && e@ == ev
                &&& final(frame)@ == f2
                &&& outs == Seq::<OutputItemView>::empty()
            },
            StepOutcome::Fail(er) => r matches Err(e) && e == er,
        },
{
    let index = frame.get_u1()?;
    let constant = frame.get_u1()?;
    let c: i32 = if constant < 128 {
        constant as i32
    } else {
        (constant as i32) - 256
    };
    let mom_value = IntegerModule::load_local_variable(frame, index as usize)?;
    frame.store_locale_variable(index as usize, LocalFrame::Int(mom_value.wrapping_add(c)))?;
    Ok(JVMEvent::Continue)
}

/// Runs one handler against the active frame: the executable counterpart of
/// `step_handler`, which states exactly what it does.
#[verifier::rlimit(100)]
#[verifier::spinoff_prover]
pub fn run_handler(
    h: HandlerKind,
    frame: &mut Frame,
    class_file: &ClassFile,
    output: &mut Vec<OutputItem>,
) -> (r: Result<JVMEvent, VmError>)
    ensures
        match step_handler(h, class_file@, old(frame)@) {
            StepOutcome::Done(f2, ev, outs) => {
                &&& r matches Ok(e) && e@ == ev
                &&& final(frame)@ == f2
                &&& final(output)@.map_values(|o: OutputItem| o@) == old(output)@.map_values(
                    |o: OutputItem| o@,
                ) + outs
            },
            StepOutcome::Fail(er) => {
                &&& r matches Err(e) && e == er
                &&& final(output)@ == old(output)@
            },
        },
{
    proof {
        assert(output@.map_values(|o: OutputItem| o@) + Seq::<OutputItemView>::empty()
            =~= output@.map_values(|o: OutputItem| o@));
    }
    match h {
        HandlerKind::Bipush => {
            let b = frame.get_u1()?;
            let v: i32 = if b < 128 {
                b as i32
            } else {
                (b as i32) - 256
            };
            frame.push_operand(OperandFrame::Int(v));
            Ok(JVMEvent::Continue)
        },
        HandlerKind::Istore => {
            let index = frame.get_u2()?;
            IntegerModule::store_to_local(frame, index as usize)?;
            Ok(JVMEvent::Continue)
        },
        HandlerKind::IstoreN(n) => {
            IntegerModule::store_to_local(frame, n as usize)?;
            Ok(JVMEvent::Continue)
        },
        HandlerKind::Iload => {
            let index = frame.get_u2()?;
            IntegerModule::load_to_stack(frame, index as usize)?;
            Ok(JVMEvent::Continue)
        },
        HandlerKind::IloadN(n) => {
            IntegerModule::load_to_stack(frame, n as usize)?;
            Ok(JVMEvent::Continue)
        },
        HandlerKind::IconstI(k) => {
            frame.push_operand(OperandFrame::Int(k));
            Ok(JVMEvent::Continue)
        },
        HandlerKind::Iadd => run_arith(h, frame),
        HandlerKind::Imul => run_arith(h, frame),
        HandlerKind::Isub => run_arith(h, frame),
        HandlerKind::Idiv => run_arith(h, frame),
        HandlerKind::Irem => run_arith(h, frame),
        HandlerKind::Ifne => {
            let param1 = IntegerModule::try_to_pop_integer(frame)?;
            let offset = frame.get_u2()?;
            if param1 != 0 {
                frame.offset_code(((offset as i32) - 3) as isize);
            }
            Ok(JVMEvent::Continue)
        },
        HandlerKind::IfIcmpeq => run_cmp_branch(h, frame),
        HandlerKind::IfIcmpne => run_cmp_branch(h, frame),
        HandlerKind::IfIcmplt => run_cmp_branch(h, frame),
        HandlerKind::IfIcmpge => run_cmp_branch(h, frame),
        HandlerKind::Iinc => run_iinc(frame),
        HandlerKind::Ireturn => {
            let v = frame.pop_operand()?;
            Ok(JVMEvent::Return(Some(v)))
        },
        HandlerKind::GetStatic => run_getstatic(frame, class_file),
        HandlerKind::Ldc => {
            let constant_index = frame.get_u1()?;
            let c = class_file.get_constant(constant_index as usize)?;
            let snapshot = c.clone();
            frame.push_operand(OperandFrame::Constant(snapshot));
            Ok(JVMEvent::Continue)
        },
        HandlerKind::InvokeVirtual => run_invokevirtual(frame, class_file, output),
        HandlerKind::ReturnVoid => Ok(JVMEvent::Return(None)),
        HandlerKind::Goto => {
            let offset = frame.get_u2()?;
            let signed: i32 = if offset < 32768 {
                offset as i32
            } else {
                (offset as i32) - 65536
            };
            frame.offset_code((signed - 3) as isize);
            Ok(JVMEvent::Return(None))
        },
    }
}

/// How many integer parameters the descriptor's parameter section declares,
/// walking from `i` to the closing parenthesis. Running past the end is
/// malformed input; a type character outside the supported alphabet is
/// malformed input; an array dimension in front of a parameter is an
/// unsupported operation.
pub open spec fn spec_count_params(desc: Seq<u8>, i: int, dims: int) -> Result<nat, VmError>
    decreases desc.len() - i,
{
    if i < 0 || i >= desc.len() {
        Err(VmError::MalformedInput)
    } else if desc[i] == 41u8 {
        Ok(0)
    } else if desc[i] == 91u8 {
        spec_count_params(desc, i + 1, dims + 1)
    } else if desc[i] == 73u8 {
        if dims != 0 {
            Err(VmError::UnsupportedOperation)
        } else {
            match spec_count_params(desc, i + 1, 0) {
                Ok(n) => Ok((n + 1) as nat),
                Err(e) => Err(e),
            }
        }
    } else {
        Err(VmError::MalformedInput)
    }
}

/// Binding `count` integer arguments: the top of the stack is the last
/// parameter, so it lands in the highest bound slot, and the arguments come
/// to rest in call order, parameter `i` in local slot `i`.
pub open spec fn spec_bind_args(
    stack: Seq<OperandFrameView>,
    locals: Seq<LocalFrame>,
    count: nat,
) -> Result<(Seq<OperandFrameView>, Seq<LocalFrame>), VmError>
    decreases count,
{
    if count == 0 {
        Ok((stack, locals))
    } else if stack.len() == 0 {
        Err(VmError::InvariantViolation)
    } else {
        match stack.last() {
            OperandFrameView::Int(x) => if count - 1 >= locals.len() {
                Err(VmError::InvariantViolation)
            } else {
                spec_bind_args(
                    stack.drop_last(),
                    locals.update(count - 1, LocalFrame::Int(x)),
                    (count - 1) as nat,
                )
            },
            _ => Err(VmError::InvariantViolation),
        }
    }
}

/// The body of the first method of `class` whose name is `name`: its code
/// attribute decoded from the raw payload. A missing method, a missing code
/// attribute or a name index outside the pool is an interpreter invariant
/// violation; a payload that does not decode is malformed input.
pub open spec fn spec_method_code(class: ClassFileView, name: Seq<u8>) -> Result<
    crate::code_attribute::CodeAttributeView,
    VmError,
> {
    let pool = class.constant_pool;
    if !all_method_names_in_pool(pool, class.methods) {
        Err(VmError::InvariantViolation)
    } else {
        let cands = filter_methods(pool, class.methods, name);
        if cands.len() == 0 {
            Err(VmError::InvariantViolation)
        } else {
            let m = cands[0];
            if !all_attribute_names_in_pool(pool, m.attributes) {
                Err(VmError::InvariantViolation)
            } else {
                let attrs = filter_attributes(pool, m.attributes, code_attribute_name());
                if attrs.len() == 0 {
                    Err(VmError::InvariantViolation)
                } else {
                    match crate::code_attribute::spec_parse_code(attrs[0].info, 0) {
                        Some((ca, end)) => Ok(ca),
                        None => Err(VmError::MalformedInput),
                    }
                }
            }
        }
    }
}

/// `max_locals` empty slots.
pub open spec fn empty_locals_view(n: nat) -> Seq<LocalFrame> {
    Seq::new(n, |x: int| LocalFrame::Empty)
}

/// What the invocation protocol does with the pool entry at `idx` and the
/// caller's frame: resolve the method reference, find the same-class method
/// by name, decode its body, and bind one popped argument per declared
/// integer parameter. On success, the caller's frame minus the arguments, and
/// the callee's fresh frame.
pub open spec fn spec_invoke(class: ClassFileView, f: FrameView, idx: int) -> Result<
    (FrameView, FrameView),
    VmError,
> {
    let pool = class.constant_pool;
    if !pool_has(pool, idx) {
        Err(VmError::InvariantViolation)
    } else {
        match pool[idx - 1] {
            ConstTypeView::Methodref(ci, nti) => match crate::class_file::spec_member_name(
                pool,
                nti as int,
            ) {
                None => Err(crate::class_file::spec_member_name_err(pool, nti as int)),
                Some(mname) => match crate::class_file::spec_class_name(pool, ci as int) {
                    None => Err(crate::class_file::spec_class_name_err(pool, ci as int)),
                    Some(cname) => match crate::class_file::spec_member_descriptor(
                        pool,
                        nti as int,
                    ) {
                        None => Err(
                            crate::class_file::spec_member_descriptor_err(pool, nti as int),
                        ),
                        Some(desc) => match spec_method_code(class, mname) {
                            Err(e) => Err(e),
                            Ok(ca) => match spec_count_params(desc, 1, 0) {
                                Err(e) => Err(e),
                                Ok(count) => match spec_bind_args(
                                    f.stack,
                                    empty_locals_view(ca.max_locals as nat),
                                    count,
                                ) {
                                    Err(e) => Err(e),
                                    Ok((stack2, locals2)) => Ok(
                                        (
                                            FrameView {
                                                code: f.code,
                                                pc: f.pc,
                                                stack: stack2,
                                                locals: f.locals,
                                            },
                                            FrameView {
                                                code: ca.code,
                                                pc: 0,
                                                stack: Seq::empty(),
                                                locals: locals2,
                                            },
                                        ),
                                    ),
                                },
                            },
                        },
                    },
                },
            },
            _ => Err(VmError::MalformedInput),
        }
    }
}

/// Counts the integer parameters of a method descriptor's parameter section.
fn count_params(descriptor: &Vec<u8>, param_index: usize, dims: usize) -> (r: Result<
    usize,
    VmError,
>)
    requires
        dims <= param_index,
    ensures
        match spec_count_params(descriptor@, param_index as int, dims as int) {
            Ok(n) => r matches Ok(x) && x == n && n <= descriptor@.len(),
            Err(e) => r matches Err(er) && er == e,
        },
    decreases descriptor@.len() - param_index,
{
    if param_index >= descriptor.len() {
        return Err(VmError::MalformedInput);
    }
    let c = descriptor[param_index];
    if c == 41 {
        Ok(0)
    } else if c == 91 {
        count_params(descriptor, param_index + 1, dims + 1)
    } else if c == 73 {
        if dims != 0 {
            Err(VmError::UnsupportedOperation)
        } else {
            let n = count_params(descriptor, param_index + 1, 0)?;
            if n < descriptor.len() {
                Ok(n + 1)
            } else {
                proof {
                    lemma_count_params_bound(descriptor@, param_index + 1 as int, 0);
                    assert(false);
                }
                Err(VmError::MalformedInput)
            }
        }
    } else {
        Err(VmError::MalformedInput)
    }
}

/// A successful parameter count never exceeds the characters left to walk.
proof fn lemma_count_params_bound(desc: Seq<u8>, i: int, dims: int)
    ensures
        spec_count_params(desc, i, dims) matches Ok(n) ==> i >= 0 && n <= desc.len() - i,
    decreases desc.len() - i,
{
    if 0 <= i < desc.len() {
        if desc[i] == 91u8 {
            lemma_count_params_bound(desc, i + 1, dims + 1);
        } else if desc[i] == 73u8 {
            lemma_count_params_bound(desc, i + 1, 0);
        }
    }
}

/// Pops `count` integer arguments off the caller's stack and binds them to
/// the callee's local slots, the first parameter in the first slot.
fn bind_args(frame: &mut Frame, locals: &mut Vec<LocalFrame>, count: usize) -> (r: Result<
    (),
    VmError,
>)
    ensures
        match spec_bind_args(old(frame)@.stack, old(locals)@, count as nat) {
            Ok(sl) => {
                &&& r is Ok
                &&& final(frame)@.code == old(frame)@.code
                &&& final(frame)@.pc == old(frame)@.pc
                &&& final(frame)@.locals == old(frame)@.locals
                &&& final(frame)@.stack == sl.0
                &&& final(locals)@ == sl.1
            },
            Err(e) => r matches Err(er) && er == e,
        },
    decreases count,
{
    if count == 0 {
        return Ok(());
    }
    let param = frame.pop_operand()?;
    match param {
        OperandFrame::Int(x) => {
            if count - 1 >= locals.len() {
                return Err(VmError::InvariantViolation);
            }
            locals[count - 1] = LocalFrame::Int(x);
            bind_args(frame, locals, count - 1)
        },
        _ => Err(VmError::InvariantViolation),
    }
}

/// Builds `n` empty local slots.
fn empty_locals(n: usize) -> (r: Vec<LocalFrame>)
    ensures
        r@ == empty_locals_view(n as nat),
{
    let mut locale_variables: Vec<LocalFrame> = Vec::new();
    let mut i: usize = 0;
    while i < n
        invariant
            i <= n,
            locale_variables@ =~= Seq::new(i as nat, |x: int| LocalFrame::Empty),
        decreases n - i,
    {
        locale_variables.push(LocalFrame::Empty);
        i = i + 1;
        proof {
            assert(locale_variables@ =~= Seq::new(i as nat, |x: int| LocalFrame::Empty));
        }
    }
    locale_variables
}

/// Finds the body of the first method of `class_file` named `name` and
/// decodes it.
fn method_code(class_file: &ClassFile, name: Vec<u8>) -> (r: Result<
    crate::code_attribute::CodeAttribute,
    VmError,
>)
    ensures
        match spec_method_code(class_file@, name@) {
            Ok(ca) => r matches Ok(c) && c@ == ca,
            Err(e) => r matches Err(er) && er == e,
        },
{
    let methods = find_methods_by_name(class_file, class_file, name)?;
    if methods.len() == 0 {
        return Err(VmError::InvariantViolation);
    }
    let method: &MethodInfo = methods[0];
    let code_name: Vec<u8> = vec![0x43u8, 0x6f, 0x64, 0x65];
    proof {
        assert(code_name@ =~= code_attribute_name());
        assert(methods@.map_values(|m: &MethodInfo| m@)[0] == method@);
    }
    let attributes = find_attributes_by_name(class_file, method, code_name)?;
    if attributes.len() == 0 {
        return Err(VmError::InvariantViolation);
    }
    let attribute: &crate::attribute_info::AttributeInfo = attributes[0];
    proof {
        assert(attributes@.map_values(|a: &crate::attribute_info::AttributeInfo| a@)[0]
            == attribute@);
    }
    attribute.to_code_attribute()
}

/// Resolves the method reference at pool index `invoke_index`, pops the
/// arguments its descriptor declares off the caller's frame, and builds the
/// callee's frame. This is the whole of the invocation protocol; the run
/// loop follows it whenever a handler raises the invoke event.
pub fn prepare_invocation(class_file: &ClassFile, frame: &mut Frame, invoke_index: usize) -> (r: Result<
    Frame,
    VmError,
>)
    ensures
        match spec_invoke(class_file@, old(frame)@, invoke_index as int) {
            Ok(fc) => {
                &&& r matches Ok(callee) && callee@ == fc.1
                &&& final(frame)@ == fc.0
            },
            Err(e) => r matches Err(er) && er == e,
        },
{
    let method_ref = class_file.get_constant(invoke_index)?;
    let (ci, nti) = match method_ref {
        ConstType::Methodref(class_index, type_and_name_index) => (
            *class_index,
            *type_and_name_index,
        ),
        _ => {
            return Err(VmError::MalformedInput);
        },
    };
    let method_name = class_file.get_name_of_member(nti as usize)?;
    let _class_name = class_file.get_name_of_class(ci as usize)?;
    let descriptor = class_file.get_description_of_member(nti as usize)?;
    let code_attribute = method_code(class_file, method_name)?;
    let count = count_params(&descriptor, 1, 0)?;
    let mut locale_variables = empty_locals(code_attribute.get_max_locals() as usize);
    bind_args(frame, &mut locale_variables, count)?;
    let callee = Frame {
        code: File::new(code_attribute.get_code()),
        operand_stack: Vec::new(),
        locale_variables,
    };
    proof {
        assert(callee@.stack =~= Seq::<OperandFrameView>::empty());
    }
    Ok(callee)
}

/// The machine's whole state between two instructions: the stack of live
/// activations, innermost last, and everything printed so far.
pub struct StateView {
    pub frames: Seq<FrameView>,
    pub output: Seq<OutputItemView>,
}

/// What one machine step yields: a next state, a finished run with its
/// result and output, or a fatal error with the output printed before it.
pub enum VmStepOutcome {
    Next(StateView),
    Done(Option<OperandFrameView>, Seq<OutputItemView>),
    Fail(VmError, Seq<OutputItemView>),
}

/// One step of the machine: fetch the opcode at the innermost frame's
/// program counter, dispatch through the table, and follow the control
/// event. A frame whose cursor stands at or past the code's end returns with
/// no result; an opcode with no handler is fatal.
pub open spec fn vm_step(
    class: ClassFileView,
    table: Map<u8, HandlerKind>,
    s: StateView,
) -> VmStepOutcome {
    if s.frames.len() == 0 {
        VmStepOutcome::Done(None, s.output)
    } else {
        let f = s.frames.last();
        if !(f.pc < f.code.len()) {
            if s.frames.len() == 1 {
                VmStepOutcome::Done(None, s.output)
            } else {
                VmStepOutcome::Next(StateView { frames: s.frames.drop_last(), output: s.output })
            }
        } else {
            let op = f.code[f.pc];
            if !table.contains_key(op) {
                VmStepOutcome::Fail(VmError::InvariantViolation, s.output)
            } else {
                let f1 = FrameView { code: f.code, pc: f.pc + 1, stack: f.stack, locals: f.locals };
                match step_handler(table[op], class, f1) {
                    StepOutcome::Fail(e) => VmStepOutcome::Fail(e, s.output),
                    StepOutcome::Done(f2, ev, outs) => {
                        let out2 = s.output + outs;
                        match ev {
                            JVMEventView::Continue => VmStepOutcome::Next(
                                StateView {
                                    frames: s.frames.update(s.frames.len() - 1, f2),
                                    output: out2,
                                },
                            ),
                            JVMEventView::Return(vopt) => if s.frames.len() == 1 {
                                VmStepOutcome::Done(vopt, out2)
                            } else {
                                let caller = s.frames[s.frames.len() - 2];
                                let caller2 = match vopt {
                                    Some(v) => push_op(caller, v),
                                    None => caller,
                                };
                                VmStepOutcome::Next(
                                    StateView {
                                        frames: s.frames.drop_last().update(
                                            s.frames.len() - 2,
                                            caller2,
                                        ),
                                        output: out2,
                                    },
                                )
                            },
                            JVMEventView::InvokeMethod(ix) => match spec_invoke(class, f2, ix) {
                                Err(e) => VmStepOutcome::Fail(e, out2),
                                Ok(fc) => VmStepOutcome::Next(
                                    StateView {
                                        frames: s.frames.update(s.frames.len() - 1, fc.0).push(
                                            fc.1,
                                        ),
                                        output: out2,
                                    },
                                ),
                            },
                        }
                    },
                }
            }
        }
    }
}

/// The machine run for `n` steps from `s`: the state still in progress, or
/// the terminal outcome it reached on the way.
pub open spec fn vm_steps(
    class: ClassFileView,
    table: Map<u8, HandlerKind>,
    s: StateView,
    n: nat,
) -> VmStepOutcome
    decreases n,
{
    if n == 0 {
        VmStepOutcome::Next(s)
    } else {
        match vm_step(class, table, s) {
            VmStepOutcome::Next(s2) => vm_steps(class, table, s2, (n - 1) as nat),
            done_or_fail => done_or_fail,
        }
    }
}

/// Running `n` steps and then one more is running `n + 1` steps.
pub proof fn lemma_vm_steps_snoc(
    class: ClassFileView,
    table: Map<u8, HandlerKind>,
    s: StateView,
    n: nat,
)
    requires
        vm_steps(class, table, s, n) is Next,
    ensures
        vm_steps(class, table, s, (n + 1) as nat) == vm_step(
            class,
            table,
            vm_steps(class, table, s, n)->Next_0,
        ),
    decreases n,
{
    if n == 0 {
        match vm_step(class, table, s) {
            VmStepOutcome::Next(s2) => {
                assert(vm_steps(class, table, s2, 0) == VmStepOutcome::Next(s2));
            },
            _ => {},
        }
    } else {
        match vm_step(class, table, s) {
            VmStepOutcome::Next(s2) => {
                assert(vm_steps(class, table, s, n) == vm_steps(class, table, s2, (n - 1) as nat));
                assert(vm_steps(class, table, s, (n + 1) as nat) == vm_steps(
                    class,
                    table,
                    s2,
                    n as nat,
                ));
                lemma_vm_steps_snoc(class, table, s2, (n - 1) as nat);
            },
            _ => {},
        }
    }
}

/// The starting state: one frame, nothing printed.
pub open spec fn init_state(f: FrameView) -> StateView {
    StateView { frames: seq![f], output: Seq::empty() }
}

/// The machine: a dispatch table from opcode byte to instruction, built once
/// by registering instruction modules and immutable afterwards.
pub struct JVM {
    instructions: HashMap<u8, Instruction>,
}

/// Folds a module's instruction list into a table; a second registration for
/// an opcode already present is refused.
pub open spec fn extend_table(
    t: Map<u8, HandlerKind>,
    entries: Seq<(u8, InstructionView)>,
) -> Option<Map<u8, HandlerKind>>
    decreases entries.len(),
{
    if entries.len() == 0 {
        Some(t)
    } else {
        let (op, iv) = entries[0];
        if t.contains_key(op) {
            None
        } else {
            extend_table(t.insert(op, iv.handler), entries.subrange(1, entries.len() as int))
        }
    }
}

impl JVM {
    /// The table as a mapping from opcode byte to handler identity.
    pub closed spec fn table(&self) -> Map<u8, HandlerKind> {
        Map::new(
            |k: u8| self.instructions@.dom().contains(k),
            |k: u8| self.instructions@[k].handler,
        )
    }

    /// A machine with no instructions registered yet.
    pub fn new() -> (r: JVM)
        ensures
            r.table() == Map::<u8, HandlerKind>::empty(),
    {
        let r = JVM { instructions: HashMap::new() };
        proof {
            assert(r.table() =~= Map::<u8, HandlerKind>::empty());
        }
        r
    }

    /// Adds a module's instructions to the table. Registering an opcode that
    /// already has a handler is a conflict and is refused, leaving no
    /// half-built machine behind.
    pub fn register<M: InstructionModule>(self, module: &M) -> (r: Result<JVM, VmError>)
        ensures
            extend_table(self.table(), module.instructions_view()) matches Some(t) ==> (r matches Ok(
                jvm,
            ) && jvm.table() == t),
            extend_table(self.table(), module.instructions_view()) is None ==> (r matches Err(e)
                && e == VmError::InvariantViolation),
    {
        broadcast use vstd::std_specs::hash::group_hash_axioms;

        let ghost t0 = self.table();
        let ghost all = module.instructions_view();
        let mut jvm = self;
        let mut instructions = module.get_instructions();
        while instructions.len() > 0
            invariant
                t0 == self.table(),
                all == module.instructions_view(),
                extend_table(t0, all) == extend_table(
                    jvm.table(),
                    instructions@.map_values(|p: (u8, Instruction)| (p.0, p.1@)),
                ),
            decreases instructions@.len(),
        {
            let ghost rem = instructions@.map_values(|p: (u8, Instruction)| (p.0, p.1@));
            let pair = instructions.remove(0);
            proof {
                assert(instructions@.map_values(|p: (u8, Instruction)| (p.0, p.1@)) =~= rem.subrange(
                    1,
                    rem.len() as int,
                ));
            }
            if jvm.instructions.contains_key(&pair.0) {
                proof {
                    assert(jvm.table().contains_key(pair.0));
                    assert(extend_table(t0, all) is None);
                }
                return Err(VmError::InvariantViolation);
            }
            let ghost before = jvm.table();
            jvm.instructions.insert(pair.0, pair.1);
            proof {
                assert(jvm.table() =~= before.insert(rem[0].0, rem[0].1.handler));
            }
        }
        proof {
            assert(instructions@.map_values(|p: (u8, Instruction)| (p.0, p.1@))
                =~= Seq::<(u8, InstructionView)>::empty());
        }
        Ok(jvm)
    }
}

/// The view of an optional return value.
pub open spec fn opt_view(o: Option<OperandFrame>) -> Option<OperandFrameView> {
    match o {
        Some(x) => Some(x@),
        None => None,
    }
}

/// How many instructions one run may execute. Rather than leaving a runaway
/// program bounded only by the host's resources, the machine makes the bound
/// an explicit number, and a run that reaches it stops with an
/// interpreter-invariant error.
pub open spec fn spec_step_limit() -> nat {
    0x1_0000_0000
}

/// What a finished run's result says about the machine: either some number
/// of steps within the budget reaches exactly this outcome, or the budget
/// ran out with the machine still going and the run reports an invariant
/// violation carrying everything printed so far.
pub open spec fn execution_reflects(
    class: ClassFileView,
    table: Map<u8, HandlerKind>,
    f0: FrameView,
    out: Seq<OutputItemView>,
    res: Result<Option<OperandFrame>, VmError>,
) -> bool {
    (exists|n: nat|
        n <= spec_step_limit() && #[trigger] vm_steps(class, table, init_state(f0), n)
            == run_outcome(out, res)) || (vm_steps(class, table, init_state(f0), spec_step_limit())
        matches VmStepOutcome::Next(st) && res == Err::<Option<OperandFrame>, VmError>(
        VmError::InvariantViolation,
    ) && out == st.output)
}

/// The terminal outcome a run's result stands for.
pub open spec fn run_outcome(
    out: Seq<OutputItemView>,
    r: Result<Option<OperandFrame>, VmError>,
) -> VmStepOutcome {
    match r {
        Ok(v) => VmStepOutcome::Done(opt_view(v), out),
        Err(e) => VmStepOutcome::Fail(e, out),
    }
}

impl JVM {
    /// Runs the activation `frame` to completion against this machine's
    /// table: the dispatch loop, with the suspended callers held on an
    /// explicit stack of frames. The result and the printed lines are
    /// exactly what some number of machine steps from the initial state
    /// yields.
    #[verifier::rlimit(100)]
    #[verifier::spinoff_prover]
    pub fn execute_method(&self, class_file: &ClassFile, frame: Frame) -> (r: (
        Vec<OutputItem>,
        Result<Option<OperandFrame>, VmError>,
    ))
        ensures
            execution_reflects(
                class_file@,
                self.table(),
                frame@,
                r.0@.map_values(|o: OutputItem| o@),
                r.1,
            ),
    {
        let ghost cls = class_file@;
        let ghost tbl = self.table();
        let ghost s0 = init_state(frame@);
        let mut frames: Vec<Frame> = Vec::new();
        let mut cur = frame;
        let mut output: Vec<OutputItem> = Vec::new();
        let mut budget: u64 = 0x1_0000_0000;
        let ghost mut n: nat = 0;
        proof {
            assert(frames@.map_values(|f: Frame| f@).push(cur@) =~= seq![cur@]);
            assert(output@.map_values(|o: OutputItem| o@) =~= Seq::<OutputItemView>::empty());
            assert(vm_steps(cls, tbl, s0, 0) == VmStepOutcome::Next(s0));
        }
        loop
            invariant
                s0 == init_state(frame@),
                cls == class_file@,
                tbl == self.table(),
                n + budget == spec_step_limit(),
                vm_steps(cls, tbl, s0, n) == VmStepOutcome::Next(
                    StateView {
                        frames: frames@.map_values(|f: Frame| f@).push(cur@),
                        output: output@.map_values(|o: OutputItem| o@),
                    },
                ),
            decreases budget,
        {
            broadcast use vstd::std_specs::hash::group_hash_axioms;

            let ghost st = StateView {
                frames: frames@.map_values(|f: Frame| f@).push(cur@),
                output: output@.map_values(|o: OutputItem| o@),
            };
            if budget == 0 {
                return (output, Err(VmError::InvariantViolation));
            }
            budget = budget - 1;
            proof {
                lemma_vm_steps_snoc(cls, tbl, s0, n);
            }
            if !cur.has_next() {
                if frames.len() == 0 {
                    proof {
                        assert(st.frames.len() == 1);
                        assert(vm_step(cls, tbl, st) == VmStepOutcome::Done(None, st.output));
                    }
                    return (output, Ok(None));
                }
                let popped = frames.pop();
                match popped {
                    Some(f) => {
                        cur = f;
                    },
                    None => {
                        proof {
                            assert(false);
                        }
                    },
                }
                proof {
                    assert(st.frames.drop_last() =~= frames@.map_values(|f: Frame| f@).push(cur@));
                    assert(vm_step(cls, tbl, st) == VmStepOutcome::Next(
                        StateView {
                            frames: frames@.map_values(|f: Frame| f@).push(cur@),
                            output: output@.map_values(|o: OutputItem| o@),
                        },
                    ));
                    n = n + 1;
                }
                continue ;
            }
            let ghost f0 = cur@;
            let opcode = match cur.get_u1() {
                Ok(b) => b,
                Err(_) => {
                    proof {
                        assert(false);
                    }
                    return (output, Err(VmError::MalformedInput));
                },
            };
            let instruction = match self.instructions.get(&opcode) {
                Some(ins) => ins,
                None => {
                    proof {
                        assert(!tbl.contains_key(opcode));
                        assert(vm_step(cls, tbl, st) == VmStepOutcome::Fail(
                            VmError::InvariantViolation,
                            st.output,
                        ));
                    }
                    return (output, Err(VmError::InvariantViolation));
                },
            };
            let h = instruction.get_handler();
            proof {
                assert(tbl.contains_key(opcode));
                assert(tbl[opcode] == h);
                assert(cur@ == FrameView {
                    code: f0.code,
                    pc: f0.pc + 1,
                    stack: f0.stack,
                    locals: f0.locals,
                });
            }
            let result = run_handler(h, &mut cur, class_file, &mut output);
            match result {
                Err(e) => {
                    proof {
                        assert(vm_step(cls, tbl, st) == VmStepOutcome::Fail(e, st.output));
                    }
                    return (output, Err(e));
                },
                Ok(ev) => match ev {
                    JVMEvent::Continue => {
                        proof {
                            assert(st.frames.update(st.frames.len() - 1, cur@) =~= frames@.map_values(
                                |f: Frame| f@,
                            ).push(cur@));
                            assert(vm_step(cls, tbl, st) == VmStepOutcome::Next(
                                StateView {
                                    frames: frames@.map_values(|f: Frame| f@).push(cur@),
                                    output: output@.map_values(|o: OutputItem| o@),
                                },
                            ));
                            n = n + 1;
                        }
                    },
                    JVMEvent::Return(vopt) => {
                        if frames.len() == 0 {
                            proof {
                                assert(st.frames.len() == 1);
                                assert(vm_step(cls, tbl, st) == VmStepOutcome::Done(
                                    opt_view(vopt),
                                    output@.map_values(|o: OutputItem| o@),
                                ));
                            }
                            return (output, Ok(vopt));
                        }
                        let popped = frames.pop();
                        match popped {
                            Some(f) => {
                                cur = f;
                            },
                            None => {
                                proof {
                                    assert(false);
                                }
                            },
                        }
                        let ghost caller = cur@;
                        match vopt {
                            Some(v) => {
                                cur.push_operand(v);
                            },
                            None => {},
                        }
                        proof {
                            assert(st.frames[st.frames.len() - 2] == caller);
                            assert(st.frames.drop_last().update(st.frames.len() - 2, cur@)
                                =~= frames@.map_values(|f: Frame| f@).push(cur@));
                            assert(vm_step(cls, tbl, st) == VmStepOutcome::Next(
                                StateView {
                                    frames: frames@.map_values(|f: Frame| f@).push(cur@),
                                    output: output@.map_values(|o: OutputItem| o@),
                                },
                            ));
                            n = n + 1;
                        }
                    },
                    JVMEvent::InvokeMethod(invoke_index) => {
                        match prepare_invocation(class_file, &mut cur, invoke_index) {
                            Err(e) => {
                                proof {
                                    assert(vm_step(cls, tbl, st) == VmStepOutcome::Fail(
                                        e,
                                        output@.map_values(|o: OutputItem| o@),
                                    ));
                                }
                                return (output, Err(e));
                            },
                            Ok(callee) => {
                                frames.push(cur);
                                cur = callee;
                                proof {
                                    assert(st.frames.update(st.frames.len() - 1, frames@.last()@).push(
                                        cur@,
                                    ) =~= frames@.map_values(|f: Frame| f@).push(cur@));
                                    assert(vm_step(cls, tbl, st) == VmStepOutcome::Next(
                                        StateView {
                                            frames: frames@.map_values(|f: Frame| f@).push(cur@),
                                            output: output@.map_values(|o: OutputItem| o@),
                                        },
                                    ));
                                    n = n + 1;
                                }
                            },
                        }
                    },
                },
            }
        }
    }

    /// What the entry frame for a method looks like: its code, an empty
    /// stack, and `max_locals` empty slots. The entry method takes no
    /// arguments.
    pub open spec fn spec_entry_frame(class: ClassFileView, m: MethodInfoView) -> Result<
        FrameView,
        VmError,
    > {
        let pool = class.constant_pool;
        if !all_attribute_names_in_pool(pool, m.attributes) {
            Err(VmError::InvariantViolation)
        } else {
            let attrs = filter_attributes(pool, m.attributes, code_attribute_name());
            if attrs.len() == 0 {
                Err(VmError::InvariantViolation)
            } else {
                match crate::code_attribute::spec_parse_code(attrs[0].info, 0) {
                    Some((ca, end)) => Ok(
                        FrameView {
                            code: ca.code,
                            pc: 0,
                            stack: Seq::empty(),
                            locals: empty_locals_view(ca.max_locals as nat),
                        },
                    ),
                    None => Err(VmError::MalformedInput),
                }
            }
        }
    }

    /// Locates `main_method`'s code attribute, builds the fixed zero-argument
    /// entry frame, and runs it.
    pub fn execute_main_method(&self, class_file: &ClassFile, main_method: &MethodInfo) -> (r: (
        Vec<OutputItem>,
        Result<Option<OperandFrame>, VmError>,
    ))
        ensures
            JVM::spec_entry_frame(class_file@, main_method@) matches Ok(f0) ==> execution_reflects(
                class_file@,
                self.table(),
                f0,
                r.0@.map_values(|o: OutputItem| o@),
                r.1,
            ),
            JVM::spec_entry_frame(class_file@, main_method@) matches Err(e) ==> r.1 == Err::<
                Option<OperandFrame>,
                VmError,
            >(e) && r.0@.len() == 0,
    {
        let code_name: Vec<u8> = vec![0x43u8, 0x6f, 0x64, 0x65];
        proof {
            assert(code_name@ =~= code_attribute_name());
        }
        let attributes = match find_attributes_by_name(class_file, main_method, code_name) {
            Ok(a) => a,
            Err(e) => {
                return (Vec::new(), Err(e));
            },
        };
        if attributes.len() == 0 {
            return (Vec::new(), Err(VmError::InvariantViolation));
        }
        let attribute: &crate::attribute_info::AttributeInfo = attributes[0];
        proof {
            assert(attributes@.map_values(|a: &crate::attribute_info::AttributeInfo| a@)[0]
                == attribute@);
        }
        let code_attribute = match attribute.to_code_attribute() {
            Ok(c) => c,
            Err(e) => {
                return (Vec::new(), Err(e));
            },
        };
        let entry = Frame::new(
            code_attribute.get_code(),
            code_attribute.get_max_locals() as usize,
        );
        self.execute_method(class_file, entry)
    }
}

} // verus!
