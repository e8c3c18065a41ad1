//! The byte cursor, the constant-pool decoder, the whole-class decoder and
//! the pool resolvers, exercised on concrete buffers.
use minijvm::VmError;
use minijvm::class_file;
use minijvm::const_type;
use minijvm::const_type::ConstType;
use minijvm::cursor::File;
use minijvm::jvm::ContainsMethods;

fn w16(b: &mut Vec<u8>, v: u16) {
    b.push((v >> 8) as u8);
    b.push((v & 0xff) as u8);
}

fn w32(b: &mut Vec<u8>, v: u32) {
    b.push((v >> 24) as u8);
    b.push((v >> 16) as u8);
    b.push((v >> 8) as u8);
    b.push((v & 0xff) as u8);
}

fn wutf8(b: &mut Vec<u8>, s: &[u8]) {
    b.push(1);
    w16(b, s.len() as u16);
    b.extend_from_slice(s);
}

/// A class binary with the given already-encoded pool entries and methods
/// given as (name index, max locals, code bytes); the code attribute's name
/// must live at pool index `code_name_index`.
fn class_bytes(pool: &[Vec<u8>], code_name_index: u16, methods: &[(u16, u16, Vec<u8>)]) -> Vec<u8> {
    let mut b: Vec<u8> = vec![0xCA, 0xFE, 0xBA, 0xBE];
    w16(&mut b, 0);
    w16(&mut b, 52);
    w16(&mut b, (pool.len() + 1) as u16);
    for e in pool {
        b.extend_from_slice(e);
    }
    w16(&mut b, 0); // access flags
    w16(&mut b, 0); // this class
    w16(&mut b, 0); // super class
    w16(&mut b, 0); // interfaces
    w16(&mut b, 0); // fields
    w16(&mut b, methods.len() as u16);
    for (name_index, max_locals, code) in methods {
        w16(&mut b, 0); // access flags
        w16(&mut b, *name_index);
        w16(&mut b, 0); // descriptor index
        w16(&mut b, 1); // one attribute
        w16(&mut b, code_name_index);
        w32(&mut b, (12 + code.len()) as u32);
        w16(&mut b, 10); // max stack
        w16(&mut b, *max_locals);
        w32(&mut b, code.len() as u32);
        b.extend_from_slice(code);
        w16(&mut b, 0); // exception table
        w16(&mut b, 0); // nested attributes
    }
    w16(&mut b, 0); // top attributes
    b
}

fn simple_class() -> Vec<u8> {
    let mut utf_main: Vec<u8> = Vec::new();
    wutf8(&mut utf_main, b"main");
    let mut utf_code: Vec<u8> = Vec::new();
    wutf8(&mut utf_code, b"Code");
    class_bytes(&[utf_main, utf_code], 2, &[(1, 1, vec![177])])
}

#[test]
fn cursor_reads_big_endian() {
    let mut f = File::new(vec![1, 2, 3, 4, 5, 6]);
    assert_eq!(f.get_u1(), Ok(1));
    assert_eq!(f.get_u2(), Ok(0x0203));
    assert_eq!(f.get_pointer(), 3);
    assert!(f.has_next());
    assert_eq!(f.get_u4(), Err(VmError::MalformedInput));
    assert_eq!(f.get_pointer(), 3);
    assert_eq!(f.get_range(3), Ok(vec![4, 5, 6]));
    assert!(!f.has_next());
}

#[test]
fn cursor_reads_word_ranges() {
    let mut f = File::new(vec![0, 7, 1, 0]);
    assert_eq!(f.get_range_u2(2), Ok(vec![7, 256]));
    let mut g = File::new(vec![0, 7, 1]);
    assert_eq!(g.get_range_u2(2), Err(VmError::MalformedInput));
}

#[test]
fn cursor_offset_clamps_to_end() {
    let mut f = File::new(vec![9, 8, 7, 6]);
    f.offset_pointer(3);
    assert_eq!(f.get_pointer(), 3);
    f.offset_pointer(-2);
    assert_eq!(f.get_pointer(), 1);
    f.offset_pointer(-5);
    assert_eq!(f.get_pointer(), 4);
    assert!(!f.has_next());
    f.offset_pointer(-4);
    f.offset_pointer(100);
    assert_eq!(f.get_pointer(), 4);
}

#[test]
fn constant_entries_decode() {
    let mut b: Vec<u8> = Vec::new();
    wutf8(&mut b, b"hi");
    let mut f = File::new(b);
    assert_eq!(const_type::parse_file(&mut f), Ok(ConstType::Utf8(vec![b'h', b'i'])));

    let mut f = File::new(vec![3, 0, 0, 1, 0]);
    assert_eq!(const_type::parse_file(&mut f), Ok(ConstType::Integer(256)));

    let mut f = File::new(vec![7, 0, 5]);
    assert_eq!(const_type::parse_file(&mut f), Ok(ConstType::Class(5)));

    let mut f = File::new(vec![10, 0, 1, 0, 2]);
    assert_eq!(const_type::parse_file(&mut f), Ok(ConstType::Methodref(1, 2)));

    let mut f = File::new(vec![5, 0, 0, 0, 1, 0, 0, 0, 2]);
    assert_eq!(const_type::parse_file(&mut f), Ok(ConstType::Long(1, 2)));
}

#[test]
fn unknown_tag_is_malformed() {
    let mut f = File::new(vec![2, 0, 0]);
    assert_eq!(const_type::parse_file(&mut f), Err(VmError::MalformedInput));
}

#[test]
fn short_read_is_malformed() {
    let mut f = File::new(vec![7, 0]);
    assert_eq!(const_type::parse_file(&mut f), Err(VmError::MalformedInput));
}

#[test]
fn pool_decodes_count_minus_one_entries() {
    // a count word of 3 decodes exactly two entries: slot 0 is reserved
    let mut b: Vec<u8> = Vec::new();
    b.push(7);
    w16(&mut b, 9);
    b.push(8);
    w16(&mut b, 1);
    let mut f = File::new(b);
    let pool = const_type::parse_range(&mut f, 3).unwrap();
    assert_eq!(pool, vec![ConstType::Class(9), ConstType::Str(1)]);
}

#[test]
fn class_decodes_and_counts_match() {
    let class = class_file::parse_file(&mut File::new(simple_class())).unwrap();
    // the pool's count word was 3: entries live at 1-based indices 1 and 2
    assert!(class.get_constant(1).is_ok());
    assert!(class.get_constant(2).is_ok());
    assert_eq!(class.get_constant(3).err(), Some(VmError::InvariantViolation));
    assert_eq!(class.get_methods().len(), 1);
}

#[test]
fn pool_index_is_one_based() {
    let class = class_file::parse_file(&mut File::new(simple_class())).unwrap();
    // index i reads physical slot i - 1; index 0 is reserved and an error
    assert_eq!(class.get_constant(0).err(), Some(VmError::InvariantViolation));
    assert_eq!(class.get_constant(1), Ok(&ConstType::Utf8(b"main".to_vec())));
    assert_eq!(class.get_constant(2), Ok(&ConstType::Utf8(b"Code".to_vec())));
}

#[test]
fn truncated_class_is_malformed() {
    let mut bytes = simple_class();
    bytes.truncate(bytes.len() - 3);
    let r = class_file::parse_file(&mut File::new(bytes));
    assert_eq!(r.err(), Some(VmError::MalformedInput));
}

#[test]
fn resolvers_walk_the_pool() {
    let mut utf_name: Vec<u8> = Vec::new();
    wutf8(&mut utf_name, b"java/lang/System");
    let mut cls: Vec<u8> = Vec::new();
    cls.push(7);
    w16(&mut cls, 1);
    let mut utf_out: Vec<u8> = Vec::new();
    wutf8(&mut utf_out, b"out");
    let mut utf_desc: Vec<u8> = Vec::new();
    wutf8(&mut utf_desc, b"(II)I");
    let mut nat: Vec<u8> = Vec::new();
    nat.push(12);
    w16(&mut nat, 3);
    w16(&mut nat, 4);
    let bytes = class_bytes(&[utf_name, cls, utf_out, utf_desc, nat], 0, &[]);
    let class = class_file::parse_file(&mut File::new(bytes)).unwrap();
    assert_eq!(class.get_name_of_class(2), Ok(b"java/lang/System".to_vec()));
    assert_eq!(class.get_name_of_member(5), Ok(b"out".to_vec()));
    assert_eq!(class.get_description_of_member(5), Ok(b"(II)I".to_vec()));
    // a wrong entry kind is malformed input; an out-of-range index is an
    // interpreter invariant violation
    assert_eq!(class.get_name_of_class(1).err(), Some(VmError::MalformedInput));
    assert_eq!(class.get_name_of_member(2).err(), Some(VmError::MalformedInput));
    assert_eq!(class.get_name_of_class(9).err(), Some(VmError::InvariantViolation));
}

#[test]
fn config_requires_a_filename() {
    let args = vec!["vm".to_string()];
    assert_eq!(minijvm::Config::new(&args).err(), Some("not enough arguments"));
    let args = vec!["vm".to_string(), "Main.class".to_string()];
    assert_eq!(minijvm::Config::new(&args).unwrap().filename, "Main.class");
}

#[test]
fn fields_decode_with_their_attributes() {
    // one field record: flags 9, name 1, descriptor 2, no attributes
    let mut f = File::new(vec![0, 9, 0, 1, 0, 2, 0, 0]);
    let field = minijvm::field_info::parse_file(&mut f).unwrap();
    assert_eq!(field.get_access_flags(), 9);
    assert_eq!(field.get_name_index(), 1);
    assert_eq!(field.get_descriptor_index(), 2);
    assert!(field.get_attributes().is_empty());
}

#[test]
fn exception_table_rows_decode() {
    let mut f = File::new(vec![0, 1, 0, 9, 0, 4, 0, 0]);
    let row = minijvm::exception_table_entry::parse_file(&mut f).unwrap();
    assert_eq!(row.get_start_pc(), 1);
    assert_eq!(row.get_end_pc(), 9);
    assert_eq!(row.get_handler_pc(), 4);
    assert_eq!(row.get_catch_type(), 0);
    let mut g = File::new(vec![0, 1, 0, 9, 0, 4, 0, 0, 0, 2, 0, 3, 0, 1, 0, 7]);
    let rows = minijvm::exception_table_entry::parse_range(&mut g, 2).unwrap();
    assert_eq!(rows.len(), 2);
    assert_eq!(rows[1].get_catch_type(), 7);
}

#[test]
fn attribute_payload_reinterprets_as_code() {
    // attribute: name 2, payload of a code attribute with body [177] and one
    // exception-table row, kept but never consulted
    let mut payload: Vec<u8> = Vec::new();
    w16(&mut payload, 10); // max stack
    w16(&mut payload, 1); // max locals
    w32(&mut payload, 1); // code length
    payload.push(177);
    w16(&mut payload, 1); // one exception row
    payload.extend_from_slice(&[0, 0, 0, 1, 0, 1, 0, 0]);
    w16(&mut payload, 0); // nested attributes
    let mut b: Vec<u8> = Vec::new();
    w16(&mut b, 2);
    w32(&mut b, payload.len() as u32);
    b.extend_from_slice(&payload);
    let mut f = File::new(b);
    let attr = minijvm::attribute_info::parse_file(&mut f).unwrap();
    assert_eq!(attr.get_attribute_name_index(), 2);
    let code = attr.to_code_attribute().unwrap();
    assert_eq!(code.get_code(), vec![177]);
    assert_eq!(code.get_max_locals(), 1);
}

#[test]
fn truncated_code_payload_is_malformed() {
    let mut b: Vec<u8> = Vec::new();
    w16(&mut b, 2);
    w32(&mut b, 3);
    b.extend_from_slice(&[0, 10, 0]);
    let mut f = File::new(b);
    let attr = minijvm::attribute_info::parse_file(&mut f).unwrap();
    assert_eq!(attr.to_code_attribute().err(), Some(VmError::MalformedInput));
}
