use vm::parse_field_desc;
use vm::parse_method_desc;
use vm::desc::render_field_desc;
use vm::JComponentType;
use vm::JType;
use vm::VmError;

#[test]
fn test_parse_field_desc() {
    let cases = [
        ("I", 0, JComponentType::Int),
        ("[I", 1, JComponentType::Int),
        ("[[I", 2, JComponentType::Int),
        (
            "Ljava/lang/String;",
            0,
            JComponentType::Object("java/lang/String".to_string()),
        ),
        (
            "[Ljava/lang/String;",
            1,
            JComponentType::Object("java/lang/String".to_string()),
        ),
        (
            "[[Ljava/lang/String;",
            2,
            JComponentType::Object("java/lang/String".to_string()),
        ),
    ];
    for (desc, exp_dim, exp_type) in cases {
        let jt = parse_field_desc(desc).unwrap();
        assert_eq!(jt.array_dim, exp_dim);
        assert_eq!(jt.ctype, exp_type);
    }
}

#[test]
fn test_parse_method_desc() {
    // Object m(int i, double d, Thread t);
    let case = "(IDLjava/lang/Thread;)Ljava/lang/Object;";
    let expected = (
        vec![
            JType::scalar_of(JComponentType::Int),
            JType::scalar_of(JComponentType::Double),
            JType::scalar_of(JComponentType::Object("java/lang/Thread".to_string())),
        ],
        Some(JType::scalar_of(JComponentType::Object(
            "java/lang/Object".to_string(),
        ))),
    );
    let actual = parse_method_desc(case).unwrap();
    assert_eq!(actual, expected);

    // void m(int i, double d, Thread t);
    let case = "(IDLjava/lang/Thread;)V";
    let expected = (
        vec![
            JType::scalar_of(JComponentType::Int),
            JType::scalar_of(JComponentType::Double),
            JType::scalar_of(JComponentType::Object("java/lang/Thread".to_string())),
        ],
        None,
    );
    let actual = parse_method_desc(case).unwrap();
    assert_eq!(actual, expected);
}

#[test]
fn field_desc_malformed_cases_reject() {
    assert_eq!(parse_field_desc("X"), Err(VmError::MalformedDescriptor));
    assert_eq!(parse_field_desc("L;"), Err(VmError::MalformedDescriptor));
    let deep = format!("{}I", "[".repeat(256));
    assert_eq!(
        parse_field_desc(deep.as_str()),
        Err(VmError::MalformedDescriptor)
    );
    assert_eq!(parse_field_desc(""), Err(VmError::MalformedDescriptor));
    assert_eq!(parse_field_desc("II"), Err(VmError::MalformedDescriptor));
    assert_eq!(parse_field_desc("L"), Err(VmError::MalformedDescriptor));
}

#[test]
fn method_desc_malformed_cases_reject() {
    assert_eq!(parse_method_desc("(I"), Err(VmError::MalformedDescriptor));
    assert_eq!(parse_method_desc("()X"), Err(VmError::MalformedDescriptor));
    assert_eq!(parse_method_desc(""), Err(VmError::MalformedDescriptor));
    assert_eq!(parse_method_desc("I"), Err(VmError::MalformedDescriptor));
    assert_eq!(parse_method_desc("()"), Err(VmError::MalformedDescriptor));
    assert_eq!(parse_method_desc("()VX"), Err(VmError::MalformedDescriptor));
}

#[test]
fn method_desc_bounds() {
    // 254 parameters are accepted, 255 are not
    let ok = format!("({})V", "I".repeat(254));
    let many = parse_method_desc(ok.as_str()).unwrap();
    assert_eq!(many.0.len(), 254);
    assert_eq!(many.1, None);
    let too_many = format!("({})V", "I".repeat(255));
    assert_eq!(
        parse_method_desc(too_many.as_str()),
        Err(VmError::MalformedDescriptor)
    );
    // 255 array dimensions are accepted, 256 are not
    let deep_ok = format!("{}I", "[".repeat(255));
    assert_eq!(parse_field_desc(deep_ok.as_str()).unwrap().array_dim, 255);
}

#[test]
fn field_desc_round_trip() {
    let cases = [
        "I",
        "[I",
        "[[Ljava/lang/String;",
        "Ljava/io/PrintStream;",
        "[[[Z",
        "J",
        "D",
    ];
    for case in cases {
        let jt = parse_field_desc(case).unwrap();
        assert_eq!(render_field_desc(&jt), case);
    }
}
