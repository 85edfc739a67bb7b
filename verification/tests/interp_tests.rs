use vm::class::ACC_PUBLIC;
use vm::class::ACC_STATIC;
use vm::interp::MAX_STACK;
use vm::parse_method_desc;
use vm::pool::ConstInfo;
use vm::pool::ConstantPool;
use vm::Code;
use vm::JClass;
use vm::JValue;
use vm::MethodInfo;
use vm::FieldInfo;
use vm::VmError;
use vm::JVM;

const FUEL: u64 = 1_000_000;

fn make_method(name: &str, desc: &str, max_stack: u16, max_locals: u16, code: Vec<u8>) -> MethodInfo {
    let (param_types, ret_type) = parse_method_desc(desc).unwrap();
    MethodInfo {
        access_flags: ACC_PUBLIC | ACC_STATIC,
        name: name.to_string(),
        descriptor: desc.to_string(),
        name_desc: format!("{name}{desc}"),
        code: Some(Code { max_stack, max_locals, code, exception_table: Vec::new() }),
        ret_type,
        param_types,
    }
}

fn make_static_field(name: &str, desc: &str, constant_value: Option<JValue>) -> FieldInfo {
    let jtype = vm::parse_field_desc(desc).unwrap();
    FieldInfo {
        access_flags: ACC_PUBLIC | ACC_STATIC,
        name: name.to_string(),
        descriptor: desc.to_string(),
        name_desc: format!("{name}{desc}"),
        constant_value,
        jtype,
    }
}

fn make_class(name: &str, pool: Vec<ConstInfo>, fields: Vec<FieldInfo>, methods: Vec<MethodInfo>) -> JClass {
    JClass {
        constant_pool: ConstantPool { pool },
        access_flags: ACC_PUBLIC,
        this_class: name.to_string(),
        super_class: Some("java/lang/Object".to_string()),
        interfaces: Vec::new(),
        fields,
        methods,
    }
}

fn method_ref(class: &str, name: &str, desc: &str) -> ConstInfo {
    ConstInfo::Methodref {
        class: class.to_string(),
        name: name.to_string(),
        descriptor: desc.to_string(),
    }
}

fn field_ref(class: &str, name: &str, desc: &str) -> ConstInfo {
    ConstInfo::Fieldref {
        class: class.to_string(),
        name: name.to_string(),
        descriptor: desc.to_string(),
    }
}

#[test]
fn empty_static_main_runs_to_completion() {
    let mut jvm = JVM::new();
    let main = make_method("main", "([Ljava/lang/String;)V", 1, 1, vec![0xb1]);
    jvm.load_native_class(make_class("Main", vec![ConstInfo::Unused], Vec::new(), vec![main]));
    let h = jvm.get_class("Main").unwrap();
    let m = jvm.class_at(h).get_method("main([Ljava/lang/String;)V").unwrap();
    jvm.invoke_static(0, h, m, vec![JValue::Null]).unwrap();
    assert_eq!(jvm.threads[0].frames.len(), 1);
    jvm.run(0, FUEL).unwrap();
    assert_eq!(jvm.threads[0].frames.len(), 0);
    assert_eq!(jvm.threads[0].stack.len(), 0);
}

// runs `C.main()V`, which stores an int result into static field `C.x`
fn run_int_result(body_of_f: Vec<u8>, max_stack: u16) -> JValue {
    let mut jvm = JVM::new();
    let pool = vec![
        ConstInfo::Unused,
        method_ref("C", "f", "()I"),
        field_ref("C", "x", "I"),
    ];
    let f = make_method("f", "()I", max_stack, 0, body_of_f);
    // invokestatic #1; putstatic #2; return
    let main = make_method("main", "()V", 1, 0, vec![0xb8, 0, 1, 0xb3, 0, 2, 0xb1]);
    let x = make_static_field("x", "I", None);
    jvm.load_native_class(make_class("C", pool, vec![x], vec![f, main]));
    let h = jvm.get_class("C").unwrap();
    let m = jvm.class_at(h).get_method("main()V").unwrap();
    jvm.invoke_static(0, h, m, Vec::new()).unwrap();
    jvm.run(0, FUEL).unwrap();
    assert_eq!(jvm.threads[0].stack.len(), 0);
    jvm.get_static("C", "x").unwrap()
}

#[test]
fn bipush_return_transfers_the_value_to_the_caller() {
    // bipush 42; ireturn
    assert_eq!(run_int_result(vec![0x10, 0x2a, 0xac], 1), JValue::Int(42));
}

#[test]
fn integer_addition() {
    // iconst_2; iconst_3; iadd; ireturn
    assert_eq!(run_int_result(vec![0x05, 0x06, 0x60, 0xac], 2), JValue::Int(5));
    // iconst_m1; iconst_2; iadd; ireturn
    assert_eq!(run_int_result(vec![0x02, 0x05, 0x60, 0xac], 2), JValue::Int(1));
}

#[test]
fn integer_arithmetic_wraps_and_converts() {
    // sipush 32767; i2b: low byte 0xff sign-extends to -1
    assert_eq!(
        run_int_result(vec![0x11, 0x7f, 0xff, 0x91, 0xac], 1),
        JValue::Int(-1)
    );
    // iconst_2; iconst_3; imul; ineg
    assert_eq!(
        run_int_result(vec![0x05, 0x06, 0x68, 0x74, 0xac], 2),
        JValue::Int(-6)
    );
    // iconst_m1; iconst_3; ishl: -8
    assert_eq!(
        run_int_result(vec![0x02, 0x06, 0x78, 0xac], 2),
        JValue::Int(-8)
    );
    // iconst_m1; iconst_1; iushr: 0x7fffffff
    assert_eq!(
        run_int_result(vec![0x02, 0x04, 0x7c, 0xac], 2),
        JValue::Int(0x7fffffff)
    );
    // iconst_5; iconst_3; irem
    assert_eq!(
        run_int_result(vec![0x08, 0x06, 0x70, 0xac], 2),
        JValue::Int(2)
    );
}

#[test]
fn locals_and_branches() {
    // iconst_0; istore_0; iload_0; iconst_5; if_icmpge +9; iinc 0 1; goto -10; iload_0; ireturn
    // counts 0 up to 5 in local 0
    let body = vec![
        0x03, 0x3b, // iconst_0; istore_0
        0x1a, // 2: iload_0
        0x08, // 3: iconst_5
        0xa2, 0x00, 0x09, // 4: if_icmpge +9 -> 13
        0x84, 0x00, 0x01, // 7: iinc 0, 1
        0xa7, 0xff, 0xf8, // 10: goto -8 -> 2
        0x1a, 0xac, // 13: iload_0; ireturn
    ];
    let mut jvm = JVM::new();
    let pool = vec![
        ConstInfo::Unused,
        method_ref("C", "f", "()I"),
        field_ref("C", "x", "I"),
    ];
    let f = MethodInfo {
        code: Some(Code { max_stack: 2, max_locals: 1, code: body, exception_table: Vec::new() }),
        ..make_method("f", "()I", 2, 1, Vec::new())
    };
    let main = make_method("main", "()V", 1, 0, vec![0xb8, 0, 1, 0xb3, 0, 2, 0xb1]);
    let x = make_static_field("x", "I", None);
    jvm.load_native_class(make_class("C", pool, vec![x], vec![f, main]));
    let h = jvm.get_class("C").unwrap();
    let m = jvm.class_at(h).get_method("main()V").unwrap();
    jvm.invoke_static(0, h, m, Vec::new()).unwrap();
    jvm.run(0, FUEL).unwrap();
    assert_eq!(jvm.get_static("C", "x").unwrap(), JValue::Int(5));
}

#[test]
fn getstatic_initializes_the_class_first() {
    let mut jvm = JVM::new();
    let pool = vec![
        ConstInfo::Unused,
        field_ref("D", "x", "I"),
        field_ref("D", "y", "I"),
    ];
    // getstatic D.x; putstatic D.y; return
    let main = make_method("main", "()V", 1, 0, vec![0xb2, 0, 1, 0xb3, 0, 2, 0xb1]);
    let x = make_static_field("x", "I", Some(JValue::Int(7)));
    let y = make_static_field("y", "I", None);
    jvm.load_native_class(make_class("D", pool, vec![x, y], vec![main]));
    let h = jvm.get_class("D").unwrap();
    assert!(!jvm.class_rt[h].initialized);
    let m = jvm.class_at(h).get_method("main()V").unwrap();
    jvm.invoke_static(0, h, m, Vec::new()).unwrap();
    jvm.run(0, FUEL).unwrap();
    assert!(jvm.class_rt[h].initialized);
    assert_eq!(jvm.get_static("D", "x").unwrap(), JValue::Int(7));
    assert_eq!(jvm.get_static("D", "y").unwrap(), JValue::Int(7));
}

#[test]
fn division_by_zero_raises_and_unwinds() {
    let mut jvm = JVM::new();
    // iconst_1; iconst_0; idiv; ireturn
    let f = make_method("f", "()I", 2, 0, vec![0x04, 0x03, 0x6c, 0xac]);
    jvm.load_native_class(make_class("E", vec![ConstInfo::Unused], Vec::new(), vec![f]));
    let h = jvm.get_class("E").unwrap();
    let m = jvm.class_at(h).get_method("f()I").unwrap();
    jvm.invoke_static(0, h, m, Vec::new()).unwrap();
    assert_eq!(jvm.run(0, FUEL), Err(VmError::UncaughtException));
}

#[test]
fn division_by_zero_is_caught_by_a_handler() {
    // iconst_1; iconst_0; idiv; ireturn | handler at 4: pop; iconst_5; ireturn
    let body = vec![0x04, 0x03, 0x6c, 0xac, 0x57, 0x08, 0xac];
    let etable = vec![vm::ExceptionTableEntry {
        start_pc: 0,
        end_pc: 4,
        handler_pc: 4,
        catch_type: 0,
    }];
    let mut jvm = JVM::new();
    let pool = vec![
        ConstInfo::Unused,
        method_ref("C", "f", "()I"),
        field_ref("C", "x", "I"),
    ];
    let f = MethodInfo {
        code: Some(Code { max_stack: 2, max_locals: 0, code: body, exception_table: etable }),
        ..make_method("f", "()I", 2, 0, Vec::new())
    };
    let main = make_method("main", "()V", 1, 0, vec![0xb8, 0, 1, 0xb3, 0, 2, 0xb1]);
    let x = make_static_field("x", "I", None);
    jvm.load_native_class(make_class("C", pool, vec![x], vec![f, main]));
    let h = jvm.get_class("C").unwrap();
    let m = jvm.class_at(h).get_method("main()V").unwrap();
    jvm.invoke_static(0, h, m, Vec::new()).unwrap();
    jvm.run(0, FUEL).unwrap();
    assert_eq!(jvm.get_static("C", "x").unwrap(), JValue::Int(5));
}

#[test]
fn unbounded_recursion_overflows_the_value_buffer() {
    let mut jvm = JVM::new();
    let pool = vec![ConstInfo::Unused, method_ref("R", "r", "()V")];
    // invokestatic #1; return
    let r = make_method("r", "()V", 1, 1, vec![0xb8, 0, 1, 0xb1]);
    jvm.load_native_class(make_class("R", pool, Vec::new(), vec![r]));
    let h = jvm.get_class("R").unwrap();
    let m = jvm.class_at(h).get_method("r()V").unwrap();
    jvm.invoke_static(0, h, m, Vec::new()).unwrap();
    assert_eq!(jvm.run(0, FUEL), Err(VmError::StackOverflow));
    // the buffer never passed its capacity
    assert!(jvm.threads[0].stack.len() <= MAX_STACK);
}

#[test]
fn long_arguments_occupy_two_local_slots() {
    let mut jvm = JVM::new();
    let pool = vec![
        ConstInfo::Unused,
        method_ref("L", "p", "(J)J"),
        field_ref("L", "y", "J"),
    ];
    // lload_0; lconst_1; ladd; lreturn
    let p = make_method("p", "(J)J", 4, 2, vec![0x1e, 0x0a, 0x61, 0xad]);
    // lconst_1; invokestatic #1; putstatic #2; return
    let main = make_method("main", "()V", 2, 0, vec![0x0a, 0xb8, 0, 1, 0xb3, 0, 2, 0xb1]);
    let y = make_static_field("y", "J", None);
    jvm.load_native_class(make_class("L", pool, vec![y], vec![p, main]));
    let h = jvm.get_class("L").unwrap();
    let m = jvm.class_at(h).get_method("main()V").unwrap();
    jvm.invoke_static(0, h, m, Vec::new()).unwrap();
    jvm.run(0, FUEL).unwrap();
    assert_eq!(jvm.get_static("L", "y").unwrap(), JValue::Long(2));
    assert_eq!(jvm.threads[0].stack.len(), 0);
}

#[test]
fn the_tick_budget_cancels_a_spinning_program() {
    let mut jvm = JVM::new();
    // goto 0
    let spin = make_method("spin", "()V", 0, 0, vec![0xa7, 0, 0]);
    jvm.load_native_class(make_class("S", vec![ConstInfo::Unused], Vec::new(), vec![spin]));
    let h = jvm.get_class("S").unwrap();
    let m = jvm.class_at(h).get_method("spin()V").unwrap();
    jvm.invoke_static(0, h, m, Vec::new()).unwrap();
    assert_eq!(jvm.run(0, 100), Err(VmError::Cancelled));
}

#[test]
fn lookup_failures_report_their_kind() {
    let mut jvm = JVM::new();
    assert_eq!(jvm.get_class("Nope"), Err(VmError::ClassNotFound));
    assert_eq!(jvm.get_static("Nope", "x"), Err(VmError::ClassNotFound));
    let main = make_method("main", "()V", 0, 0, vec![0xb1]);
    jvm.load_native_class(make_class("K", vec![ConstInfo::Unused], Vec::new(), vec![main]));
    let h = jvm.get_class("K").unwrap();
    assert_eq!(
        jvm.class_at(h).get_method("gone()V"),
        Err(VmError::MethodNotFound)
    );
    assert_eq!(jvm.get_static("K", "x"), Err(VmError::FieldNotFound));
    // a method without a code attribute cannot be invoked
    let mut no_code = make_method("abs", "()V", 0, 0, Vec::new());
    no_code.code = None;
    jvm.load_native_class(make_class("A", vec![ConstInfo::Unused], Vec::new(), vec![no_code]));
    let h2 = jvm.get_class("A").unwrap();
    let m2 = jvm.class_at(h2).get_method("abs()V").unwrap();
    assert_eq!(jvm.invoke_static(0, h2, m2, Vec::new()), Err(VmError::NoCode));
}

#[test]
fn the_builtin_classes_register_like_parsed_ones() {
    let mut jvm = JVM::new();
    vm::stdlib_load_core(&mut jvm).unwrap();
    let h = jvm.get_class("java/lang/System").unwrap();
    assert_eq!(jvm.class_at(h).this_class, "java/lang/System");
    assert_eq!(
        jvm.get_static("java/lang/System", "out").unwrap(),
        JValue::Null
    );
}

#[test]
fn a_parsed_class_file_runs_end_to_end() {
    // built byte for byte: one static field x:I = 7, one method m()V { return; }
    let mut b: Vec<u8> = Vec::new();
    b.extend(0xcafebabeu32.to_be_bytes());
    b.extend(0u16.to_be_bytes());
    b.extend(52u16.to_be_bytes());
    b.extend(10u16.to_be_bytes());
    for s in ["C2"] {
        b.push(1);
        b.extend((s.len() as u16).to_be_bytes());
        b.extend(s.as_bytes());
    }
    b.push(7);
    b.extend(1u16.to_be_bytes());
    for s in ["x", "I", "ConstantValue"] {
        b.push(1);
        b.extend((s.len() as u16).to_be_bytes());
        b.extend(s.as_bytes());
    }
    b.push(3);
    b.extend(7i32.to_be_bytes());
    for s in ["m", "()V", "Code"] {
        b.push(1);
        b.extend((s.len() as u16).to_be_bytes());
        b.extend(s.as_bytes());
    }
    b.extend(0x0021u16.to_be_bytes());
    b.extend(2u16.to_be_bytes());
    b.extend(0u16.to_be_bytes());
    b.extend(0u16.to_be_bytes());
    b.extend(1u16.to_be_bytes());
    b.extend(0x0009u16.to_be_bytes());
    b.extend(3u16.to_be_bytes());
    b.extend(4u16.to_be_bytes());
    b.extend(1u16.to_be_bytes());
    b.extend(5u16.to_be_bytes());
    b.extend(2u32.to_be_bytes());
    b.extend(6u16.to_be_bytes());
    b.extend(1u16.to_be_bytes());
    b.extend(0x0009u16.to_be_bytes());
    b.extend(7u16.to_be_bytes());
    b.extend(8u16.to_be_bytes());
    b.extend(1u16.to_be_bytes());
    b.extend(9u16.to_be_bytes());
    b.extend(13u32.to_be_bytes());
    b.extend(1u16.to_be_bytes());
    b.extend(0u16.to_be_bytes());
    b.extend(1u32.to_be_bytes());
    b.push(0xb1);
    b.extend(0u16.to_be_bytes());
    b.extend(0u16.to_be_bytes());
    b.extend(0u16.to_be_bytes());

    let mut jvm = JVM::new();
    jvm.load_class(&b).unwrap();
    let h = jvm.get_class("C2").unwrap();
    let m = jvm.class_at(h).get_method("m()V").unwrap();
    jvm.invoke_static(0, h, m, Vec::new()).unwrap();
    jvm.run(0, FUEL).unwrap();
    assert_eq!(jvm.threads[0].frames.len(), 0);
    assert_eq!(jvm.get_static("C2", "x").unwrap(), JValue::Int(7));
}
