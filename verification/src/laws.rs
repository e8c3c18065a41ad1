//! The machine's general laws, stated once and proved: decoded counts match
//! their prefix words, arithmetic behaves as the stack convention says,
//! every branch lands where the raw offset points, the increment instruction
//! adds its signed constant, and invocation binds arguments to slots in call
//! order.
use vstd::prelude::*;

use crate::VmError;
use crate::class_file::spec_parse_class;
use crate::const_type::{spec_parse_consts, pool_entries};
use crate::cursor::{be_u16, jump_target};
use crate::attribute_info::spec_parse_attrs;
use crate::exception_table_entry::spec_parse_excs;
use crate::field_info::spec_parse_fields;
use crate::jvm::{
    arith_spec, branch_by, cmp_branch_spec, drop_top, goto_spec, ifne_spec, iinc_spec, push_op,
    read_u2_spec, sign16, sign8, spec_bind_args, spec_count_params, trunc_div, trunc_rem,
    wrap_add, wrap_mul, FrameView, HandlerKind, JVMEventView, LocalFrame, OperandFrameView,
    StepOutcome,
};
use crate::method_info::spec_parse_methods;
use crate::parse_list::lemma_parse_list_len;

verus! {

/// Round-trip of counts: a successful decode of a `k`-long record list holds
/// exactly `k` records, for the constant pool as well as for attribute,
/// field, method and exception-table lists.
pub proof fn lemma_counts_round_trip(d: Seq<u8>, i: int, k: nat)
    ensures
        spec_parse_consts(d, i, k) matches Some(s) ==> s.0.len() == k,
        spec_parse_attrs(d, i, k) matches Some(s) ==> s.0.len() == k,
        spec_parse_fields(d, i, k) matches Some(s) ==> s.0.len() == k,
        spec_parse_methods(d, i, k) matches Some(s) ==> s.0.len() == k,
        spec_parse_excs(d, i, k) matches Some(s) ==> s.0.len() == k,
{
    if spec_parse_consts(d, i, k) is Some {
        lemma_parse_list_len(d, i, k, crate::const_type::const_parser());
    }
    if spec_parse_attrs(d, i, k) is Some {
        lemma_parse_list_len(d, i, k, crate::attribute_info::attr_parser());
    }
    if spec_parse_fields(d, i, k) is Some {
        lemma_parse_list_len(d, i, k, crate::field_info::field_parser());
    }
    if spec_parse_methods(d, i, k) is Some {
        lemma_parse_list_len(d, i, k, crate::method_info::method_parser());
    }
    if spec_parse_excs(d, i, k) is Some {
        lemma_parse_list_len(d, i, k, crate::exception_table_entry::exc_parser());
    }
}

/// Round-trip of the pool count: a decoded class holds one pool entry fewer
/// than its count word, the reserved slot 0 never being encoded.
pub proof fn lemma_pool_count_round_trip(d: Seq<u8>, i: int)
    ensures
        spec_parse_class(d, i) matches Some(c) ==> c.0.constant_pool.len() == pool_entries(
            be_u16(d, i + 8) as nat,
        ),
{
    if spec_parse_class(d, i) is Some {
        lemma_counts_round_trip(d, i + 10, pool_entries(be_u16(d, i + 8) as nat));
    }
}

/// Arithmetic on the operand stack: with `a` pushed first and `b` on top,
/// subtraction yields `a - b`, division `a / b` truncated toward zero, and
/// the remainder pairs with that quotient; addition and multiplication do
/// not care which operand came first.
pub proof fn lemma_arithmetic(s: Seq<OperandFrameView>, a: i32, b: i32, f: FrameView)
    requires
        f.stack == s.push(OperandFrameView::Int(a)).push(OperandFrameView::Int(b)),
    ensures
        i32::MIN <= a - b <= i32::MAX ==> arith_spec(f, HandlerKind::Isub) == StepOutcome::Done(
            push_op(drop_top(drop_top(f)), OperandFrameView::Int((a - b) as i32)),
            JVMEventView::Continue,
            Seq::empty(),
        ),
        b != 0 && !(a == i32::MIN && b == -1) ==> arith_spec(f, HandlerKind::Idiv)
            == StepOutcome::Done(
            push_op(drop_top(drop_top(f)), OperandFrameView::Int(trunc_div(a as int, b as int) as i32)),
            JVMEventView::Continue,
            Seq::empty(),
        ),
        b != 0 && !(a == i32::MIN && b == -1) ==> arith_spec(f, HandlerKind::Irem)
            == StepOutcome::Done(
            push_op(drop_top(drop_top(f)), OperandFrameView::Int(trunc_rem(a as int, b as int) as i32)),
            JVMEventView::Continue,
            Seq::empty(),
        ),
{
    assert(f.stack.last() == OperandFrameView::Int(b));
    assert(f.stack.drop_last() =~= s.push(OperandFrameView::Int(a)));
    assert(f.stack.drop_last().last() == OperandFrameView::Int(a));
}

/// Addition and multiplication are commutative: swapping the two integers on
/// top of the stack does not change what either instruction pushes.
pub proof fn lemma_arith_commutes(
    s: Seq<OperandFrameView>,
    a: i32,
    b: i32,
    f: FrameView,
    g: FrameView,
)
    requires
        f.stack == s.push(OperandFrameView::Int(a)).push(OperandFrameView::Int(b)),
        g.stack == s.push(OperandFrameView::Int(b)).push(OperandFrameView::Int(a)),
        g.code == f.code,
        g.pc == f.pc,
        g.locals == f.locals,
    ensures
        arith_spec(f, HandlerKind::Iadd) == arith_spec(g, HandlerKind::Iadd),
        arith_spec(f, HandlerKind::Imul) == arith_spec(g, HandlerKind::Imul),
{
    assert(f.stack.drop_last() =~= s.push(OperandFrameView::Int(a)));
    assert(g.stack.drop_last() =~= s.push(OperandFrameView::Int(b)));
    assert(f.stack.drop_last().drop_last() =~= s);
    assert(g.stack.drop_last().drop_last() =~= s);
    assert(drop_top(drop_top(f)) == drop_top(drop_top(g)));
    assert(wrap_add(a, b) == wrap_add(b, a));
    assert(wrap_mul(a, b) == wrap_mul(b, a)) by {
        assert(a * b == b * a) by (nonlinear_arith);
    }
}

/// The branch offset law: a branch instruction whose opcode byte stands at
/// buffer position `p` has consumed the opcode and its two offset bytes by
/// the time it jumps, so the cursor stands at `p + 3`; applying the relative
/// move of `offset - 3` lands it at exactly `p + offset` whenever that
/// target lies inside the code.
pub proof fn lemma_branch_offset(code: Seq<u8>, p: int, f3: FrameView, o: int)
    requires
        f3.code == code,
        f3.pc == p + 3,
        0 <= p + o <= code.len(),
    ensures
        branch_by(f3, o - 3).pc == p + o,
{
    assert(jump_target(code.len() as int, p + 3, o - 3) == p + o);
}

/// Whether a comparison branch on `a` pushed first and `b` on top is taken.
pub open spec fn cmp_taken(h: HandlerKind, a: i32, b: i32) -> bool {
    match h {
        HandlerKind::IfIcmpeq => a == b,
        HandlerKind::IfIcmpne => a != b,
        HandlerKind::IfIcmplt => a < b,
        HandlerKind::IfIcmpge => a >= b,
        _ => false,
    }
}

/// The branch offset law for a taken comparison branch, end to end: with the
/// opcode byte at `p`, two integers on the stack and the raw offset word `o`
/// behind the opcode, a taken branch leaves the cursor at exactly `p + o`.
pub proof fn lemma_cmp_branch_lands(
    s: Seq<OperandFrameView>,
    a: i32,
    b: i32,
    f: FrameView,
    p: int,
    h: HandlerKind,
)
    requires
        h is IfIcmpeq || h is IfIcmpne || h is IfIcmplt || h is IfIcmpge,
        f.pc == p + 1,
        p + 3 <= f.code.len(),
        0 <= p + be_u16(f.code, p + 1) <= f.code.len(),
        f.stack == s.push(OperandFrameView::Int(a)).push(OperandFrameView::Int(b)),
        cmp_taken(h, a, b),
    ensures
        cmp_branch_spec(f, h) matches StepOutcome::Done(f4, ev, outs) && f4.pc == p + be_u16(
            f.code,
            p + 1,
        ),
{
    assert(f.stack.last() == OperandFrameView::Int(b));
    assert(f.stack.drop_last() =~= s.push(OperandFrameView::Int(a)));
    let f2 = drop_top(drop_top(f));
    assert(read_u2_spec(f2) is Some);
    let (o, f3) = read_u2_spec(f2)->Some_0;
    lemma_branch_offset(f.code, p, f3, o);
}

/// The same law for the branch-if-nonzero instruction, which pops one value.
pub proof fn lemma_ifne_lands(s: Seq<OperandFrameView>, v: i32, f: FrameView, p: int)
    requires
        f.pc == p + 1,
        p + 3 <= f.code.len(),
        0 <= p + be_u16(f.code, p + 1) <= f.code.len(),
        f.stack == s.push(OperandFrameView::Int(v)),
        v != 0,
    ensures
        ifne_spec(f) matches StepOutcome::Done(f4, ev, outs) && f4.pc == p + be_u16(
            f.code,
            p + 1,
        ),
{
    assert(f.stack.last() == OperandFrameView::Int(v));
    let f1 = drop_top(f);
    assert(read_u2_spec(f1) is Some);
    let (o, f3) = read_u2_spec(f1)->Some_0;
    lemma_branch_offset(f.code, p, f3, o);
}

/// The same law for the unconditional jump, whose offset is read as a signed
/// word.
pub proof fn lemma_goto_lands(f: FrameView, p: int)
    requires
        f.pc == p + 1,
        p + 3 <= f.code.len(),
        0 <= p + sign16(be_u16(f.code, p + 1)) <= f.code.len(),
    ensures
        goto_spec(f) matches StepOutcome::Done(f4, ev, outs) && f4.pc == p + sign16(
            be_u16(f.code, p + 1),
        ) && ev == JVMEventView::Return(None::<OperandFrameView>),
{
    assert(read_u2_spec(f) is Some);
    let (o, f3) = read_u2_spec(f)->Some_0;
    lemma_branch_offset(f.code, p, f3, sign16(o));
}

/// The increment law: local slot holding `v` becomes `v + c` for the signed
/// byte constant `c`, negative constants included, whenever the sum fits.
pub proof fn lemma_iinc(f: FrameView, ix: u8, c: u8, v: i32)
    requires
        f.pc + 2 <= f.code.len(),
        f.code[f.pc] == ix,
        f.code[f.pc + 1] == c,
        ix < f.locals.len(),
        f.locals[ix as int] == LocalFrame::Int(v),
        i32::MIN <= v + sign8(c) <= i32::MAX,
    ensures
        iinc_spec(f) matches StepOutcome::Done(f2, ev, outs) && f2.locals[ix as int]
            == LocalFrame::Int((v + sign8(c)) as i32),
{
    assert(wrap_add(v, sign8(c)) == (v + sign8(c)) as i32);
}

/// The invocation binding law: a method whose descriptor declares two
/// integer parameters, invoked against a caller stack ending in `x` then `y`
/// (with `y` on top), receives `x` in local slot 0 and `y` in local slot 1,
/// and the two arguments leave the caller's stack.
pub proof fn lemma_invocation_binding(
    s: Seq<OperandFrameView>,
    x: i32,
    y: i32,
    locals: Seq<LocalFrame>,
)
    requires
        locals.len() >= 2,
    ensures
        spec_bind_args(
            s.push(OperandFrameView::Int(x)).push(OperandFrameView::Int(y)),
            locals,
            2,
        ) matches Ok(sl) && sl.0 == s && sl.1 == locals.update(0, LocalFrame::Int(x)).update(
            1,
            LocalFrame::Int(y),
        ),
{
    let st = s.push(OperandFrameView::Int(x)).push(OperandFrameView::Int(y));
    let st1 = s.push(OperandFrameView::Int(x));
    let l1 = locals.update(1, LocalFrame::Int(y));
    let l2 = l1.update(0, LocalFrame::Int(x));
    assert(st.last() == OperandFrameView::Int(y));
    assert(st.drop_last() =~= st1);
    assert(spec_bind_args(st, locals, 2) == spec_bind_args(st1, l1, 1));
    assert(st1.last() == OperandFrameView::Int(x));
    assert(st1.drop_last() =~= s);
    assert(spec_bind_args(st1, l1, 1) == spec_bind_args(s, l2, 0));
    assert(spec_bind_args(s, l2, 0) == Ok::<_, VmError>((s, l2)));
    assert(l2 =~= locals.update(0, LocalFrame::Int(x)).update(1, LocalFrame::Int(y)));
}

/// The descriptor of two integer parameters returning an integer declares
/// exactly two arguments to bind.
pub proof fn lemma_two_int_descriptor()
    ensures
        spec_count_params(seq![40u8, 73u8, 73u8, 41u8, 73u8], 1, 0) == Ok::<nat, VmError>(2nat),
{
    assert(spec_count_params(seq![40u8, 73u8, 73u8, 41u8, 73u8], 3, 0) == Ok::<nat, VmError>(
        0nat,
    ));
    assert(spec_count_params(seq![40u8, 73u8, 73u8, 41u8, 73u8], 2, 0) == Ok::<nat, VmError>(
        1nat,
    ));
}

} // verus!
