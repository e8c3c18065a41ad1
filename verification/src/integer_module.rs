//! The integer and control-flow instruction set: constants, loads and
//! stores, wrapping arithmetic, truncated division, comparison branches, the
//! increment instruction, and the value-returning return.
use vstd::prelude::*;

use crate::VmError;
use crate::jvm::{
    Frame, HandlerKind, Instruction, InstructionModule, InstructionView, LocalFrame, OperandFrame,
    iabs, load_int_spec, pop_int_spec, store_int_spec, trunc_div, trunc_rem, StepOutcome,
};

verus! {

broadcast use vstd::std_specs::control_flow::group_control_flow_axioms, vstd::arithmetic::div_mod::group_div_basics, vstd::arithmetic::div_mod::group_mod_basics;

/// The provider of the integer and control-flow instructions.
pub struct IntegerModule;

impl IntegerModule {
    /// Pops an integer and stores it in local slot `index`: the store half of
    /// the store instructions.
    pub fn store_to_local(frame: &mut Frame, index: usize) -> (r: Result<(), VmError>)
        ensures
            match store_int_spec(old(frame)@, index as int) {
                StepOutcome::Done(f2, ev, outs) => r is Ok && final(frame)@ == f2,
                StepOutcome::Fail(e) => r matches Err(er) && er == e,
            },
    {
        let operand = frame.pop_operand()?;
        match operand {
            OperandFrame::Int(integer) => frame.store_locale_variable(
                index,
                LocalFrame::Int(integer),
            ),
            _ => Err(VmError::InvariantViolation),
        }
    }

    /// Pushes the integer in local slot `index` onto the operand stack: the
    /// load half of the load instructions.
    pub fn load_to_stack(frame: &mut Frame, index: usize) -> (r: Result<(), VmError>)
        ensures
            match load_int_spec(old(frame)@, index as int) {
                StepOutcome::Done(f2, ev, outs) => r is Ok && final(frame)@ == f2,
                StepOutcome::Fail(e) => r matches Err(er) && er == e,
            },
    {
        let local_value = frame.load_locale_variable(index)?;
        match local_value {
            LocalFrame::Int(integer) => {
                frame.push_operand(OperandFrame::Int(integer));
                Ok(())
            },
            _ => Err(VmError::InvariantViolation),
        }
    }

    /// The integer in local slot `index`; an empty or missing slot is an
    /// interpreter invariant violation.
    pub fn load_local_variable(frame: &mut Frame, index: usize) -> (r: Result<i32, VmError>)
        ensures
            final(frame)@ == old(frame)@,
            (0 <= index < old(frame)@.locals.len() && old(
                frame,
            )@.locals[index as int] is Int) ==> (r matches Ok(x) && LocalFrame::Int(x) == old(
                frame,
            )@.locals[index as int]),
            !(0 <= index < old(frame)@.locals.len() && old(
                frame,
            )@.locals[index as int] is Int) ==> (r matches Err(e) && e
                == VmError::InvariantViolation),
    {
        let local_value = frame.load_locale_variable(index)?;
        match local_value {
            LocalFrame::Int(integer) => Ok(integer),
            _ => Err(VmError::InvariantViolation),
        }
    }

    /// Pops the top of the stack, which must be an integer.
    pub fn try_to_pop_integer(frame: &mut Frame) -> (r: Result<i32, VmError>)
        ensures
            match pop_int_spec(old(frame)@) {
                Ok(vf) => r matches Ok(x) && x == vf.0 && final(frame)@ == vf.1,
                Err(e) => r matches Err(er) && er == e,
            },
    {
        let param = frame.pop_operand()?;
        match param {
            OperandFrame::Int(integer) => Ok(integer),
            _ => Err(VmError::InvariantViolation),
        }
    }
}

/// Division truncated toward zero. The two cases the machine cannot compute
/// are ruled out here and reported by the caller: a zero divisor, and the one
/// quotient that does not fit.
pub fn idiv_exec(a: i32, b: i32) -> (r: i32)
    requires
        b != 0,
        !(a == i32::MIN && b == -1),
    ensures
        r == trunc_div(a as int, b as int),
{
    let ua: u64 = if a >= 0 {
        a as u64
    } else {
        (-(a as i64)) as u64
    };
    let ub: u64 = if b >= 0 {
        b as u64
    } else {
        (-(b as i64)) as u64
    };
    let q = ua / ub;
    proof {
        assert(ua as int == iabs(a as int));
        assert(ub as int == iabs(b as int));
        assert(q <= ua);
        if ub == 1 {
            vstd::arithmetic::div_mod::lemma_div_basics(ua as int);
            assert(q == ua);
        } else {
            vstd::arithmetic::div_mod::lemma_div_is_ordered_by_denominator(ua as int, 2, ub as int);
            vstd::arithmetic::div_mod::lemma_div_is_ordered(ua as int, 0x8000_0000, 2);
            assert(q <= 0x4000_0000);
        }
    }
    if (a < 0) != (b < 0) {
        proof {
            assert(trunc_div(a as int, b as int) == -(q as int));
        }
        (-(q as i64)) as i32
    } else {
        proof {
            assert(trunc_div(a as int, b as int) == q as int);
            assert(q <= 0x7fff_ffff);
        }
        q as i32
    }
}

/// The remainder that pairs with `idiv_exec`: it carries the dividend's sign.
pub fn irem_exec(a: i32, b: i32) -> (r: i32)
    requires
        b != 0,
        !(a == i32::MIN && b == -1),
    ensures
        r == trunc_rem(a as int, b as int),
{
    let ua: u64 = if a >= 0 {
        a as u64
    } else {
        (-(a as i64)) as u64
    };
    let ub: u64 = if b >= 0 {
        b as u64
    } else {
        (-(b as i64)) as u64
    };
    let m = ua % ub;
    proof {
        assert(ua as int == iabs(a as int));
        assert(ub as int == iabs(b as int));
        assert(m < ub);
        assert(m <= 0x7fff_ffff || ub == 0x8000_0000);
    }
    if a < 0 {
        proof {
            assert(trunc_rem(a as int, b as int) == -(m as int));
        }
        (-(m as i64)) as i32
    } else {
        proof {
            assert(trunc_rem(a as int, b as int) == m as int);
            assert(ub <= 0x8000_0000);
            assert(m <= 0x7fff_ffff);
        }
        m as i32
    }
}

impl InstructionModule for IntegerModule {
    open spec fn instructions_view(&self) -> Seq<(u8, InstructionView)> {
        seq![
            (16u8, InstructionView { name: "bipush"@, handler: HandlerKind::Bipush }),
            (54u8, InstructionView { name: "istore"@, handler: HandlerKind::Istore }),
            (59u8, InstructionView { name: "istore_n(n=0)"@, handler: HandlerKind::IstoreN(0) }),
            (60u8, InstructionView { name: "istore_n(n=1)"@, handler: HandlerKind::IstoreN(1) }),
            (61u8, InstructionView { name: "istore_n(n=2)"@, handler: HandlerKind::IstoreN(2) }),
            (62u8, InstructionView { name: "istore_n(n=3)"@, handler: HandlerKind::IstoreN(3) }),
            (21u8, InstructionView { name: "iload"@, handler: HandlerKind::Iload }),
            (26u8, InstructionView { name: "iload_n(n=0)"@, handler: HandlerKind::IloadN(0) }),
            (27u8, InstructionView { name: "iload_n(n=1)"@, handler: HandlerKind::IloadN(1) }),
            (28u8, InstructionView { name: "iload_n(n=2)"@, handler: HandlerKind::IloadN(2) }),
            (29u8, InstructionView { name: "iload_n(n=3)"@, handler: HandlerKind::IloadN(3) }),
            (2u8, InstructionView { name: "iconst_i(-1)"@, handler: HandlerKind::IconstI(-1i32) }),
            (3u8, InstructionView { name: "iconst_i(0)"@, handler: HandlerKind::IconstI(0) }),
            (4u8, InstructionView { name: "iconst_i(1)"@, handler: HandlerKind::IconstI(1) }),
            (5u8, InstructionView { name: "iconst_i(2)"@, handler: HandlerKind::IconstI(2) }),
            (6u8, InstructionView { name: "iconst_i(3)"@, handler: HandlerKind::IconstI(3) }),
            (7u8, InstructionView { name: "iconst_i(4)"@, handler: HandlerKind::IconstI(4) }),
            (8u8, InstructionView { name: "iconst_i(5)"@, handler: HandlerKind::IconstI(5) }),
            (96u8, InstructionView { name: "iadd"@, handler: HandlerKind::Iadd }),
            (104u8, InstructionView { name: "imul"@, handler: HandlerKind::Imul }),
            (100u8, InstructionView { name: "isub"@, handler: HandlerKind::Isub }),
            (108u8, InstructionView { name: "idiv"@, handler: HandlerKind::Idiv }),
            (112u8, InstructionView { name: "imod"@, handler: HandlerKind::Irem }),
            (154u8, InstructionView { name: "ifne"@, handler: HandlerKind::Ifne }),
            (159u8, InstructionView { name: "if_icmpeq"@, handler: HandlerKind::IfIcmpeq }),
            (160u8, InstructionView { name: "if_icmpne"@, handler: HandlerKind::IfIcmpne }),
            (161u8, InstructionView { name: "if_icmplt"@, handler: HandlerKind::IfIcmplt }),
            (162u8, InstructionView { name: "if_icmpge"@, handler: HandlerKind::IfIcmpge }),
            (132u8, InstructionView { name: "iinc"@, handler: HandlerKind::Iinc }),
            (172u8, InstructionView { name: "ireturn"@, handler: HandlerKind::Ireturn }),
        ]
    }

    fn get_instructions(&self) -> (r: Vec<(u8, Instruction)>) {
        let mut r: Vec<(u8, Instruction)> = Vec::new();
        r.push((16, Instruction::new("bipush".to_owned(), HandlerKind::Bipush)));
        r.push((54, Instruction::new("istore".to_owned(), HandlerKind::Istore)));
        r.push((59, Instruction::new("istore_n(n=0)".to_owned(), HandlerKind::IstoreN(0))));
        r.push((60, Instruction::new("istore_n(n=1)".to_owned(), HandlerKind::IstoreN(1))));
        r.push((61, Instruction::new("istore_n(n=2)".to_owned(), HandlerKind::IstoreN(2))));
        r.push((62, Instruction::new("istore_n(n=3)".to_owned(), HandlerKind::IstoreN(3))));
        r.push((21, Instruction::new("iload".to_owned(), HandlerKind::Iload)));
        r.push((26, Instruction::new("iload_n(n=0)".to_owned(), HandlerKind::IloadN(0))));
        r.push((27, Instruction::new("iload_n(n=1)".to_owned(), HandlerKind::IloadN(1))));
        r.push((28, Instruction::new("iload_n(n=2)".to_owned(), HandlerKind::IloadN(2))));
        r.push((29, Instruction::new("iload_n(n=3)".to_owned(), HandlerKind::IloadN(3))));
        r.push((2, Instruction::new("iconst_i(-1)".to_owned(), HandlerKind::IconstI(-1))));
        r.push((3, Instruction::new("iconst_i(0)".to_owned(), HandlerKind::IconstI(0))));
        r.push((4, Instruction::new("iconst_i(1)".to_owned(), HandlerKind::IconstI(1))));
        r.push((5, Instruction::new("iconst_i(2)".to_owned(), HandlerKind::IconstI(2))));
        r.push((6, Instruction::new("iconst_i(3)".to_owned(), HandlerKind::IconstI(3))));
        r.push((7, Instruction::new("iconst_i(4)".to_owned(), HandlerKind::IconstI(4))));
        r.push((8, Instruction::new("iconst_i(5)".to_owned(), HandlerKind::IconstI(5))));
        r.push((96, Instruction::new("iadd".to_owned(), HandlerKind::Iadd)));
        r.push((104, Instruction::new("imul".to_owned(), HandlerKind::Imul)));
        r.push((100, Instruction::new("isub".to_owned(), HandlerKind::Isub)));
        r.push((108, Instruction::new("idiv".to_owned(), HandlerKind::Idiv)));
        r.push((112, Instruction::new("imod".to_owned(), HandlerKind::Irem)));
        r.push((154, Instruction::new("ifne".to_owned(), HandlerKind::Ifne)));
        r.push((159, Instruction::new("if_icmpeq".to_owned(), HandlerKind::IfIcmpeq)));
        r.push((160, Instruction::new("if_icmpne".to_owned(), HandlerKind::IfIcmpne)));
        r.push((161, Instruction::new("if_icmplt".to_owned(), HandlerKind::IfIcmplt)));
        r.push((162, Instruction::new("if_icmpge".to_owned(), HandlerKind::IfIcmpge)));
        r.push((132, Instruction::new("iinc".to_owned(), HandlerKind::Iinc)));
        r.push((172, Instruction::new("ireturn".to_owned(), HandlerKind::Ireturn)));
        proof {
            assert(r@.map_values(|p: (u8, Instruction)| (p.0, p.1@)) =~= self.instructions_view());
        }
        r
    }
}

} // verus!
