use vm::parse_class_file;
use vm::pool::ConstInfo;
use vm::JValue;
use vm::VmError;

fn header(cp_count: u16) -> Vec<u8> {
    let mut b: Vec<u8> = Vec::new();
    b.extend(0xcafebabeu32.to_be_bytes());
    b.extend(0u16.to_be_bytes()); // minor
    b.extend(52u16.to_be_bytes()); // major
    b.extend(cp_count.to_be_bytes());
    b
}

fn push_utf8(b: &mut Vec<u8>, s: &str) {
    b.push(1);
    b.extend((s.len() as u16).to_be_bytes());
    b.extend(s.as_bytes());
}

fn tail(b: &mut Vec<u8>, this_idx: u16, super_idx: u16) {
    b.extend(0x0021u16.to_be_bytes()); // access flags
    b.extend(this_idx.to_be_bytes());
    b.extend(super_idx.to_be_bytes());
    b.extend(0u16.to_be_bytes()); // interfaces
    b.extend(0u16.to_be_bytes()); // fields
    b.extend(0u16.to_be_bytes()); // methods
    b.extend(0u16.to_be_bytes()); // attributes
}

// entry 5 Methodref(6, 7), 6 Class(8), 7 NameAndType(9, 10), 8..10 UTF-8
fn method_ref_file() -> Vec<u8> {
    let mut b = header(11);
    for _ in 0..4 {
        b.push(3);
        b.extend(0i32.to_be_bytes());
    }
    b.push(10);
    b.extend(6u16.to_be_bytes());
    b.extend(7u16.to_be_bytes());
    b.push(7);
    b.extend(8u16.to_be_bytes());
    b.push(12);
    b.extend(9u16.to_be_bytes());
    b.extend(10u16.to_be_bytes());
    push_utf8(&mut b, "C");
    push_utf8(&mut b, "m");
    push_utf8(&mut b, "()V");
    tail(&mut b, 6, 0);
    b
}

#[test]
fn resolves_method_reference_chain() {
    let cls = parse_class_file(&method_ref_file()).unwrap();
    assert_eq!(cls.this_class, "C");
    assert_eq!(cls.super_class, None);
    let (c, m, d) = cls.constant_pool.get_method(5).unwrap();
    assert_eq!(c, "C");
    assert_eq!(m, "m");
    assert_eq!(d, "()V");
    // the same entry is not a field reference
    assert_eq!(
        cls.constant_pool.get_field(5).err(),
        Some(VmError::MalformedClassFile)
    );
    assert_eq!(
        cls.constant_pool.get(100).err(),
        Some(VmError::IndexOutOfRange)
    );
}

#[test]
fn get_utf8_returns_original_bytes() {
    let cls = parse_class_file(&method_ref_file()).unwrap();
    assert_eq!(cls.constant_pool.get_utf8(8).unwrap(), "C");
    assert_eq!(cls.constant_pool.get_utf8(9).unwrap(), "m");
    assert_eq!(cls.constant_pool.get_utf8(10).unwrap(), "()V");
    // entry 5 is not UTF-8
    assert_eq!(
        cls.constant_pool.get_utf8(5).err(),
        Some(VmError::MalformedClassFile)
    );
}

#[test]
fn parsing_is_deterministic() {
    let bytes = method_ref_file();
    let a = parse_class_file(&bytes).unwrap();
    let b = parse_class_file(&bytes).unwrap();
    assert_eq!(a.this_class, b.this_class);
    assert_eq!(a.constant_pool.pool.len(), b.constant_pool.pool.len());
    assert_eq!(a.constant_pool.get_utf8(8), b.constant_pool.get_utf8(8));
    assert_eq!(a.access_flags, b.access_flags);
}

#[test]
fn long_entries_occupy_two_slots() {
    // 1..2 Long (two slots), 3 UTF-8 "C", 4 Class(3)
    let mut b = header(5);
    b.push(5);
    b.extend(0x0102030405060708i64.to_be_bytes());
    push_utf8(&mut b, "C");
    b.push(7);
    b.extend(3u16.to_be_bytes());
    tail(&mut b, 4, 0);
    let cls = parse_class_file(&b).unwrap();
    assert!(matches!(
        cls.constant_pool.get(1).unwrap(),
        ConstInfo::Long { bytes: 0x0102030405060708 }
    ));
    assert!(matches!(cls.constant_pool.get(2).unwrap(), ConstInfo::Unused));
    // every slot from 1 on is resolved or the second slot of a long/double
    for i in 1..cls.constant_pool.pool.len() {
        if matches!(cls.constant_pool.pool[i], ConstInfo::Unused) {
            assert!(matches!(
                cls.constant_pool.pool[i - 1],
                ConstInfo::Long { .. } | ConstInfo::Double { .. }
            ));
        }
    }
}

// one static field x:I with ConstantValue 7 and one method m()V { return; }
fn field_and_method_file() -> Vec<u8> {
    let mut b = header(10);
    push_utf8(&mut b, "C"); // 1
    b.push(7); // 2: Class(1)
    b.extend(1u16.to_be_bytes());
    push_utf8(&mut b, "x"); // 3
    push_utf8(&mut b, "I"); // 4
    push_utf8(&mut b, "ConstantValue"); // 5
    b.push(3); // 6: Integer 7
    b.extend(7i32.to_be_bytes());
    push_utf8(&mut b, "m"); // 7
    push_utf8(&mut b, "()V"); // 8
    push_utf8(&mut b, "Code"); // 9
    b.extend(0x0021u16.to_be_bytes());
    b.extend(2u16.to_be_bytes()); // this
    b.extend(0u16.to_be_bytes()); // super
    b.extend(0u16.to_be_bytes()); // interfaces
    b.extend(1u16.to_be_bytes()); // fields
    b.extend(0x0009u16.to_be_bytes()); // public static
    b.extend(3u16.to_be_bytes()); // name x
    b.extend(4u16.to_be_bytes()); // desc I
    b.extend(1u16.to_be_bytes()); // one attribute
    b.extend(5u16.to_be_bytes()); // ConstantValue
    b.extend(2u32.to_be_bytes());
    b.extend(6u16.to_be_bytes());
    b.extend(1u16.to_be_bytes()); // methods
    b.extend(0x0009u16.to_be_bytes());
    b.extend(7u16.to_be_bytes()); // name m
    b.extend(8u16.to_be_bytes()); // desc ()V
    b.extend(1u16.to_be_bytes()); // one attribute
    b.extend(9u16.to_be_bytes()); // Code
    b.extend(13u32.to_be_bytes());
    b.extend(1u16.to_be_bytes()); // max_stack
    b.extend(0u16.to_be_bytes()); // max_locals
    b.extend(1u32.to_be_bytes()); // code length
    b.push(0xb1); // return
    b.extend(0u16.to_be_bytes()); // exception table
    b.extend(0u16.to_be_bytes()); // code attributes
    b.extend(0u16.to_be_bytes()); // class attributes
    b
}

#[test]
fn parses_field_initializer_and_code() {
    let cls = parse_class_file(&field_and_method_file()).unwrap();
    assert_eq!(cls.fields.len(), 1);
    assert_eq!(cls.fields[0].name, "x");
    assert_eq!(cls.fields[0].name_desc, "xI");
    assert_eq!(cls.fields[0].constant_value, Some(JValue::Int(7)));
    assert_eq!(cls.methods.len(), 1);
    assert_eq!(cls.methods[0].name_desc, "m()V");
    let code = cls.methods[0].code.as_ref().unwrap();
    assert_eq!(code.max_stack, 1);
    assert_eq!(code.max_locals, 0);
    assert_eq!(code.code, vec![0xb1]);
    assert_eq!(code.exception_table.len(), 0);
    let mi = cls.get_method("m()V").unwrap();
    assert_eq!(mi, 0);
    assert_eq!(cls.get_method("m()I"), Err(VmError::MethodNotFound));
}

#[test]
fn malformed_files_reject() {
    // wrong magic
    let mut b = method_ref_file();
    b[0] = 0xca;
    b[1] = 0xfe;
    b[2] = 0xba;
    b[3] = 0xbf;
    assert_eq!(parse_class_file(&b).err(), Some(VmError::MalformedClassFile));
    // trailing byte
    let mut b = method_ref_file();
    b.push(0);
    assert_eq!(parse_class_file(&b).err(), Some(VmError::MalformedClassFile));
    // truncated
    let b = method_ref_file();
    assert_eq!(
        parse_class_file(&b[..b.len() - 3]).err(),
        Some(VmError::MalformedClassFile)
    );
    // this-class index does not name a class entry
    let mut b = header(2);
    push_utf8(&mut b, "C");
    tail(&mut b, 1, 0);
    assert_eq!(parse_class_file(&b).err(), Some(VmError::MalformedClassFile));
    // invalid UTF-8 payload
    let mut b = header(2);
    b.push(1);
    b.extend(1u16.to_be_bytes());
    b.push(0xff);
    tail(&mut b, 1, 0);
    assert_eq!(parse_class_file(&b).err(), Some(VmError::MalformedClassFile));
    // unknown constant-pool tag
    let mut b = header(2);
    b.push(13);
    tail(&mut b, 1, 0);
    assert_eq!(parse_class_file(&b).err(), Some(VmError::MalformedClassFile));
    // a field descriptor that violates the grammar
    let mut b = header(6);
    push_utf8(&mut b, "C"); // 1
    b.push(7); // 2: Class(1)
    b.extend(1u16.to_be_bytes());
    push_utf8(&mut b, "x"); // 3
    push_utf8(&mut b, "Q"); // 4: not a type
    push_utf8(&mut b, "unused"); // 5
    b.extend(0x0021u16.to_be_bytes());
    b.extend(2u16.to_be_bytes());
    b.extend(0u16.to_be_bytes());
    b.extend(0u16.to_be_bytes());
    b.extend(1u16.to_be_bytes()); // one field
    b.extend(0x0009u16.to_be_bytes());
    b.extend(3u16.to_be_bytes());
    b.extend(4u16.to_be_bytes());
    b.extend(0u16.to_be_bytes()); // no attributes
    b.extend(0u16.to_be_bytes()); // methods
    b.extend(0u16.to_be_bytes()); // class attributes
    assert_eq!(parse_class_file(&b).err(), Some(VmError::MalformedDescriptor));
}
