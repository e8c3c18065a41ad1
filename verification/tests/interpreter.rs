//! The dispatch engine run end to end on small class binaries: arithmetic,
//! branches, the increment instruction, the static stream read, the println
//! call, the invocation protocol, and the fatal paths.
use minijvm::VmError;
use minijvm::class_file;
use minijvm::class_file::ClassFile;
use minijvm::cursor::File;
use minijvm::integer_module::IntegerModule;
use minijvm::jvm;
use minijvm::jvm::{Frame, JVM, LocalFrame, OperandFrame, OutputItem};
use minijvm::static_module::StaticModule;

fn p16(b: &mut Vec<u8>, v: u16) {
    b.push((v >> 8) as u8);
    b.push((v & 0xff) as u8);
}

fn p32(b: &mut Vec<u8>, v: u32) {
    b.push((v >> 24) as u8);
    b.push((v >> 16) as u8);
    b.push((v >> 8) as u8);
    b.push((v & 0xff) as u8);
}

fn putf8(s: &[u8]) -> Vec<u8> {
    let mut b = vec![1u8];
    p16(&mut b, s.len() as u16);
    b.extend_from_slice(s);
    b
}

fn pclass(name_index: u16) -> Vec<u8> {
    let mut b = vec![7u8];
    p16(&mut b, name_index);
    b
}

fn pnat(name_index: u16, descriptor_index: u16) -> Vec<u8> {
    let mut b = vec![12u8];
    p16(&mut b, name_index);
    p16(&mut b, descriptor_index);
    b
}

fn pfieldref(class_index: u16, nat_index: u16) -> Vec<u8> {
    let mut b = vec![9u8];
    p16(&mut b, class_index);
    p16(&mut b, nat_index);
    b
}

fn pmethodref(class_index: u16, nat_index: u16) -> Vec<u8> {
    let mut b = vec![10u8];
    p16(&mut b, class_index);
    p16(&mut b, nat_index);
    b
}

fn pstr(utf8_index: u16) -> Vec<u8> {
    let mut b = vec![8u8];
    p16(&mut b, utf8_index);
    b
}

/// A class binary with the given encoded pool entries and methods given as
/// (name index, max locals, code bytes); the code attribute's name must live
/// at pool index `code_name_index`.
fn make_class(pool: &[Vec<u8>], code_name_index: u16, methods: &[(u16, u16, Vec<u8>)]) -> ClassFile {
    let mut b: Vec<u8> = vec![0xCA, 0xFE, 0xBA, 0xBE];
    p16(&mut b, 0);
    p16(&mut b, 52);
    p16(&mut b, (pool.len() + 1) as u16);
    for e in pool {
        b.extend_from_slice(e);
    }
    p16(&mut b, 0);
    p16(&mut b, 0);
    p16(&mut b, 0);
    p16(&mut b, 0);
    p16(&mut b, 0);
    p16(&mut b, methods.len() as u16);
    for (name_index, max_locals, code) in methods {
        p16(&mut b, 0);
        p16(&mut b, *name_index);
        p16(&mut b, 0);
        p16(&mut b, 1);
        p16(&mut b, code_name_index);
        p32(&mut b, (12 + code.len()) as u32);
        p16(&mut b, 10);
        p16(&mut b, *max_locals);
        p32(&mut b, code.len() as u32);
        b.extend_from_slice(code);
        p16(&mut b, 0);
        p16(&mut b, 0);
    }
    p16(&mut b, 0);
    class_file::parse_file(&mut File::new(b)).unwrap()
}

fn machine() -> JVM {
    JVM::new().register(&IntegerModule).unwrap().register(&StaticModule).unwrap()
}

/// Runs the given `main` body with `max_locals` local slots.
fn run_main(max_locals: u16, code: Vec<u8>) -> (Vec<OutputItem>, Result<Option<OperandFrame>, VmError>) {
    let class = make_class(&[putf8(b"main"), putf8(b"Code")], 2, &[(1, max_locals, code)]);
    let main_method = jvm::find_methods_by_name(&class, &class, b"main".to_vec()).unwrap()[0];
    machine().execute_main_method(&class, main_method)
}

#[test]
fn end_to_end_arithmetic_returns_eight() {
    // bipush 5; bipush 3; iadd; istore_0; iload_0; ireturn
    let (out, r) = run_main(1, vec![16, 5, 16, 3, 96, 59, 26, 172]);
    assert!(out.is_empty());
    assert_eq!(r, Ok(Some(OperandFrame::Int(8))));
}

#[test]
fn bipush_sign_extends() {
    // bipush 0xfb pushes -5
    let (_, r) = run_main(0, vec![16, 0xfb, 172]);
    assert_eq!(r, Ok(Some(OperandFrame::Int(-5))));
}

#[test]
fn isub_subtracts_top_from_second() {
    // 5 then 3 on top: isub yields 5 - 3
    let (_, r) = run_main(0, vec![16, 5, 16, 3, 100, 172]);
    assert_eq!(r, Ok(Some(OperandFrame::Int(2))));
}

#[test]
fn idiv_truncates_toward_zero() {
    let (_, r) = run_main(0, vec![16, 7, 16, 2, 108, 172]);
    assert_eq!(r, Ok(Some(OperandFrame::Int(3))));
    // -7 / 2 truncates to -3
    let (_, r) = run_main(0, vec![16, 0xf9, 16, 2, 108, 172]);
    assert_eq!(r, Ok(Some(OperandFrame::Int(-3))));
}

#[test]
fn irem_carries_the_dividend_sign() {
    let (_, r) = run_main(0, vec![16, 7, 16, 2, 112, 172]);
    assert_eq!(r, Ok(Some(OperandFrame::Int(1))));
    let (_, r) = run_main(0, vec![16, 0xf9, 16, 2, 112, 172]);
    assert_eq!(r, Ok(Some(OperandFrame::Int(-1))));
}

#[test]
fn iadd_and_imul_commute() {
    let (_, a) = run_main(0, vec![16, 5, 16, 3, 96, 172]);
    let (_, b) = run_main(0, vec![16, 3, 16, 5, 96, 172]);
    assert_eq!(a, Ok(Some(OperandFrame::Int(8))));
    assert_eq!(a, b);
    let (_, a) = run_main(0, vec![16, 6, 16, 7, 104, 172]);
    let (_, b) = run_main(0, vec![16, 7, 16, 6, 104, 172]);
    assert_eq!(a, Ok(Some(OperandFrame::Int(42))));
    assert_eq!(a, b);
}

#[test]
fn division_by_zero_is_fatal() {
    let (out, r) = run_main(0, vec![16, 7, 3, 108, 172]);
    assert!(out.is_empty());
    assert_eq!(r, Err(VmError::InvariantViolation));
}

#[test]
fn iconst_pushes_its_literal() {
    // iconst_i(-1): opcode 2
    let (_, r) = run_main(0, vec![2, 172]);
    assert_eq!(r, Ok(Some(OperandFrame::Int(-1))));
    let (_, r) = run_main(0, vec![8, 172]);
    assert_eq!(r, Ok(Some(OperandFrame::Int(5))));
}

#[test]
fn taken_branch_lands_at_opcode_position_plus_offset() {
    // 0: bipush 1; 2: bipush 1; 4: if_icmpeq +5 (to 9); 7: iconst_0; 8: ireturn;
    // 9: bipush 7; 11: ireturn
    let (_, r) = run_main(0, vec![16, 1, 16, 1, 159, 0, 5, 3, 172, 16, 7, 172]);
    assert_eq!(r, Ok(Some(OperandFrame::Int(7))));
}

#[test]
fn untaken_branch_falls_through() {
    // equal test fails: falls through to iconst_0; ireturn
    let (_, r) = run_main(0, vec![16, 1, 16, 2, 159, 0, 5, 3, 172, 16, 7, 172]);
    assert_eq!(r, Ok(Some(OperandFrame::Int(0))));
}

#[test]
fn ifne_branches_on_nonzero() {
    // 0: bipush 9; 2: ifne +5 (to 7); 5: iconst_0; 6: ireturn; 7: bipush 4; 9: ireturn
    let (_, r) = run_main(0, vec![16, 9, 154, 0, 5, 3, 172, 16, 4, 172]);
    assert_eq!(r, Ok(Some(OperandFrame::Int(4))));
    let (_, r) = run_main(0, vec![3, 154, 0, 5, 3, 172, 16, 4, 172]);
    assert_eq!(r, Ok(Some(OperandFrame::Int(0)))); // zero does not branch
}

#[test]
fn iinc_adds_a_signed_constant() {
    // bipush 10; istore_0; iinc 0 by -5; iload_0; ireturn
    let (_, r) = run_main(1, vec![16, 10, 59, 132, 0, 0xfb, 26, 172]);
    assert_eq!(r, Ok(Some(OperandFrame::Int(5))));
}

#[test]
fn istore_iload_use_wide_indices() {
    // the wide forms read a two-byte slot index
    let (_, r) = run_main(6, vec![16, 11, 54, 0, 5, 21, 0, 5, 172]);
    assert_eq!(r, Ok(Some(OperandFrame::Int(11))));
}

#[test]
fn goto_repositions_and_ends_the_method() {
    // the jump repositions the cursor, but the machine then ends the
    // activation with no result: that is what the jump instruction signals
    let (out, r) = run_main(0, vec![167, 0, 3, 3, 172]);
    assert!(out.is_empty());
    assert_eq!(r, Ok(None));
}

#[test]
fn falling_off_the_code_end_returns_nothing() {
    let (out, r) = run_main(0, vec![3]);
    assert!(out.is_empty());
    assert_eq!(r, Ok(None));
}

fn println_class(value_entry: Vec<u8>, value_index: u8) -> ClassFile {
    // [1] main [2] Code [3] Class -> 4 [4] java/lang/System [5] NameAndType 6 7
    // [6] out [7] type [8] Fieldref 3 5 [9] Class -> 10 [10] java/io/PrintStream
    // [11] NameAndType 12 13 [12] println [13] type [14] Methodref 9 11
    // [15] the printed value
    let pool = vec![
        putf8(b"main"),
        putf8(b"Code"),
        pclass(4),
        putf8(b"java/lang/System"),
        pnat(6, 7),
        putf8(b"out"),
        putf8(b"Ljava/io/PrintStream;"),
        pfieldref(3, 5),
        pclass(10),
        putf8(b"java/io/PrintStream"),
        pnat(12, 13),
        putf8(b"println"),
        putf8(b"(Ljava/lang/String;)V"),
        pmethodref(9, 11),
        value_entry,
        putf8(b"hi"),
    ];
    // getstatic 8; ldc value; invokevirtual 14; return
    let code = vec![178, 0, 8, 18, value_index, 182, 0, 14, 177];
    make_class(&pool, 2, &[(1, 0, code)])
}

#[test]
fn println_prints_exactly_the_text() {
    let class = println_class(pstr(16), 15);
    let main_method = jvm::find_methods_by_name(&class, &class, b"main".to_vec()).unwrap()[0];
    let (out, r) = machine().execute_main_method(&class, main_method);
    assert_eq!(out, vec![OutputItem::Utf8(b"hi".to_vec())]);
    assert_eq!(r, Ok(None));
}

#[test]
fn println_prints_an_integer() {
    // a machine integer below the stream handle prints as a decimal line
    let pool = vec![
        putf8(b"main"),
        putf8(b"Code"),
        pclass(4),
        putf8(b"java/lang/System"),
        pnat(6, 7),
        putf8(b"out"),
        putf8(b"Ljava/io/PrintStream;"),
        pfieldref(3, 5),
        pclass(10),
        putf8(b"java/io/PrintStream"),
        pnat(12, 13),
        putf8(b"println"),
        putf8(b"(I)V"),
        pmethodref(9, 11),
    ];
    let code = vec![178, 0, 8, 16, 99, 182, 0, 14, 177];
    let class = make_class(&pool, 2, &[(1, 0, code)]);
    let main_method = jvm::find_methods_by_name(&class, &class, b"main".to_vec()).unwrap()[0];
    let (out, r) = machine().execute_main_method(&class, main_method);
    assert_eq!(out, vec![OutputItem::Int(99)]);
    assert_eq!(r, Ok(None));
}

#[test]
fn println_of_a_non_text_constant_is_unsupported() {
    let mut int_entry = vec![3u8];
    p32(&mut int_entry, 1234);
    let class = println_class(int_entry, 15);
    let main_method = jvm::find_methods_by_name(&class, &class, b"main".to_vec()).unwrap()[0];
    let (out, r) = machine().execute_main_method(&class, main_method);
    assert!(out.is_empty());
    assert_eq!(r, Err(VmError::UnsupportedOperation));
}

#[test]
fn unknown_opcode_aborts_with_no_output() {
    let (out, r) = run_main(0, vec![0xff, 177]);
    assert!(out.is_empty());
    assert_eq!(r, Err(VmError::InvariantViolation));
}

#[test]
fn unsupported_static_field_is_fatal() {
    // the resolved field is not the well-known output stream
    let pool = vec![
        putf8(b"main"),
        putf8(b"Code"),
        pclass(4),
        putf8(b"some/other/Thing"),
        pnat(6, 7),
        putf8(b"out"),
        putf8(b"X"),
        pfieldref(3, 5),
    ];
    let class = make_class(&pool, 2, &[(1, 0, vec![178, 0, 8, 177])]);
    let main_method = jvm::find_methods_by_name(&class, &class, b"main".to_vec()).unwrap()[0];
    let (out, r) = machine().execute_main_method(&class, main_method);
    assert!(out.is_empty());
    assert_eq!(r, Err(VmError::UnsupportedOperation));
}

#[test]
fn pop_from_an_empty_stack_is_fatal() {
    let (_, r) = run_main(0, vec![96, 177]);
    assert_eq!(r, Err(VmError::InvariantViolation));
}

#[test]
fn registering_an_opcode_twice_is_refused() {
    let r = JVM::new().register(&IntegerModule).unwrap().register(&IntegerModule);
    assert_eq!(r.err(), Some(VmError::InvariantViolation));
}

#[test]
fn frame_operations_track_the_stack_and_slots() {
    let mut frame = Frame::new(vec![0x12, 0x34], 2);
    assert_eq!(frame.stack_len(), 0);
    frame.push_operand(OperandFrame::Int(7));
    frame.push_operand(OperandFrame::StdOut);
    assert_eq!(frame.stack_len(), 2);
    assert_eq!(frame.pop_operand(), Ok(OperandFrame::StdOut));
    assert_eq!(frame.pop_operand(), Ok(OperandFrame::Int(7)));
    assert_eq!(frame.pop_operand(), Err(VmError::InvariantViolation));
    assert_eq!(frame.store_locale_variable(1, LocalFrame::Int(9)), Ok(()));
    assert_eq!(frame.load_locale_variable(1), Ok(LocalFrame::Int(9)));
    assert_eq!(frame.load_locale_variable(0), Ok(LocalFrame::Empty));
    assert_eq!(frame.load_locale_variable(2), Err(VmError::InvariantViolation));
    assert_eq!(frame.get_u2(), Ok(0x1234));
    assert_eq!(frame.get_u1(), Err(VmError::MalformedInput));
    frame.offset_code(-2);
    assert_eq!(frame.get_u1(), Ok(0x12));
}

#[test]
fn invocation_binds_parameters_in_call_order() {
    // a method "addi" with descriptor (II)I: against a stack [x, y] with y on
    // top, slot 0 receives x and slot 1 receives y
    let pool = vec![
        putf8(b"main"),
        putf8(b"Code"),
        putf8(b"addi"),
        putf8(b"(II)I"),
        pnat(3, 4),
        pclass(7),
        putf8(b"AnyClass"),
        pmethodref(6, 5),
    ];
    let class = make_class(
        &pool,
        2,
        &[(1, 0, vec![177]), (3, 2, vec![26, 27, 96, 172])],
    );
    let mut caller = Frame::new(Vec::new(), 0);
    caller.push_operand(OperandFrame::Int(4));
    caller.push_operand(OperandFrame::Int(9));
    let mut callee = jvm::prepare_invocation(&class, &mut caller, 8).unwrap();
    assert_eq!(caller.stack_len(), 0);
    assert_eq!(callee.load_locale_variable(0), Ok(LocalFrame::Int(4)));
    assert_eq!(callee.load_locale_variable(1), Ok(LocalFrame::Int(9)));
    // and the callee runs to the sum of its two arguments
    let (out, r) = machine().execute_method(&class, callee);
    assert!(out.is_empty());
    assert_eq!(r, Ok(Some(OperandFrame::Int(13))));
}

#[test]
fn invocation_with_too_few_arguments_is_fatal() {
    let pool = vec![
        putf8(b"main"),
        putf8(b"Code"),
        putf8(b"addi"),
        putf8(b"(II)I"),
        pnat(3, 4),
        pclass(7),
        putf8(b"AnyClass"),
        pmethodref(6, 5),
    ];
    let class = make_class(
        &pool,
        2,
        &[(1, 0, vec![177]), (3, 2, vec![26, 27, 96, 172])],
    );
    let mut caller = Frame::new(Vec::new(), 0);
    caller.push_operand(OperandFrame::Int(4));
    let r = jvm::prepare_invocation(&class, &mut caller, 8);
    assert_eq!(r.err(), Some(VmError::InvariantViolation));
}

#[test]
fn invocation_rejects_array_parameters() {
    let pool = vec![
        putf8(b"main"),
        putf8(b"Code"),
        putf8(b"addi"),
        putf8(b"([I)I"),
        pnat(3, 4),
        pclass(7),
        putf8(b"AnyClass"),
        pmethodref(6, 5),
    ];
    let class = make_class(
        &pool,
        2,
        &[(1, 0, vec![177]), (3, 2, vec![26, 27, 96, 172])],
    );
    let mut caller = Frame::new(Vec::new(), 0);
    caller.push_operand(OperandFrame::Int(4));
    let r = jvm::prepare_invocation(&class, &mut caller, 8);
    assert_eq!(r.err(), Some(VmError::UnsupportedOperation));
}

#[test]
fn invocation_rejects_unknown_descriptor_types() {
    let pool = vec![
        putf8(b"main"),
        putf8(b"Code"),
        putf8(b"addi"),
        putf8(b"(J)I"),
        pnat(3, 4),
        pclass(7),
        putf8(b"AnyClass"),
        pmethodref(6, 5),
    ];
    let class = make_class(
        &pool,
        2,
        &[(1, 0, vec![177]), (3, 2, vec![26, 27, 96, 172])],
    );
    let mut caller = Frame::new(Vec::new(), 0);
    caller.push_operand(OperandFrame::Int(4));
    let r = jvm::prepare_invocation(&class, &mut caller, 8);
    assert_eq!(r.err(), Some(VmError::MalformedInput));
}

#[test]
fn ldc_snapshots_the_pool_entry() {
    // [3] Integer is pushed as a constant snapshot and returned as such
    let mut int_entry = vec![3u8];
    p32(&mut int_entry, 77);
    let pool = vec![putf8(b"main"), putf8(b"Code"), int_entry];
    let class = make_class(&pool, 2, &[(1, 0, vec![18, 3, 172])]);
    let main_method = jvm::find_methods_by_name(&class, &class, b"main".to_vec()).unwrap()[0];
    let (_, r) = machine().execute_main_method(&class, main_method);
    assert_eq!(
        r,
        Ok(Some(OperandFrame::Constant(minijvm::const_type::ConstType::Integer(77)))),
    );
}
