//! Injection of natively constructed built-in classes.
//!
//! The embedder can avoid shipping class-file bytes for platform-provided
//! types: a natively built class record is registered through the same path
//! as a parsed one and is indistinguishable in lookups afterwards.

use vstd::prelude::*;
use vstd::string::StringExecFns;

use crate::class::FieldInfo;
use crate::class::JClass;
use crate::class::JValue;
use crate::class::ACC_PUBLIC;
use crate::class::ACC_STATIC;
use crate::desc::parse_field_desc;
use crate::err::VmError;
use crate::interp::JVM;
use crate::pool::ConstantPool;
use crate::pool::ConstInfo;

verus! {

/// Build a field record from its name and descriptor strings, with a null
/// initializer. Fails with `VmError::MalformedDescriptor` exactly when the
/// descriptor violates the grammar.
pub fn define_field(access_flags: u16, name: &str, descriptor: &str) -> (r: Result<
    FieldInfo,
    VmError,
>)
    ensures
        r matches Ok(f) ==> crate::desc::spec_parse_field(descriptor@) == Some(f@.jtype)
            && f@.access_flags == access_flags && f@.name == name@ && f@.descriptor == descriptor@
            && f@.name_desc == name@ + descriptor@ && f@.constant_value == Some(JValue::Null),
        r is Err ==> crate::desc::spec_parse_field(descriptor@) is None && r == Err::<
            FieldInfo,
            VmError,
        >(VmError::MalformedDescriptor),
{
    let jtype = parse_field_desc(descriptor)?;
    let name_s: String = name.to_owned();
    let descriptor_s: String = descriptor.to_owned();
    let mut name_desc = name_s.clone();
    name_desc.append(descriptor);
    Ok(
        FieldInfo {
            access_flags,
            name: name_s,
            descriptor: descriptor_s,
            name_desc,
            constant_value: Some(JValue::Null),
            jtype,
        },
    )
}

/// The built-in `java/lang/System` class: a public static `out` field of
/// the print-stream type (its value is the null reference stub) and no
/// methods.
pub fn java_lang_system() -> (r: Result<JClass, VmError>)
    ensures
        r is Ok,
        r matches Ok(c) ==> c@.this_class == "java/lang/System"@,
{
    let field = match define_field(ACC_PUBLIC | ACC_STATIC, "out", "Ljava/io/PrintStream;") {
        Ok(f) => f,
        Err(e) => {
            proof {
                reveal_strlit("Ljava/io/PrintStream;");
                assert(crate::desc::spec_parse_field("Ljava/io/PrintStream;"@) is Some) by {
                    reveal_with_fuel(crate::desc::find_semi, 25);
                    reveal_with_fuel(crate::desc::spec_parse_field_one, 3);
                }
                assert(false);
            }
            return Err(e);
        },
    };
    let mut fields: Vec<FieldInfo> = Vec::new();
    fields.push(field);
    let mut pool: Vec<ConstInfo> = Vec::new();
    pool.push(ConstInfo::Unused);
    Ok(
        JClass {
            constant_pool: ConstantPool { pool },
            access_flags: ACC_PUBLIC,
            this_class: "java/lang/System".to_owned(),
            super_class: Some("java/lang/Object".to_owned()),
            interfaces: Vec::new(),
            fields,
            methods: Vec::new(),
        },
    )
}

/// Register the built-in classes with the machine.
pub fn load_core(jvm: &mut JVM) -> (r: Result<(), VmError>)
    requires
        old(jvm).wf(),
    ensures
        final(jvm).wf(),
        r is Ok,
        final(jvm).classes@.len() == old(jvm).classes@.len() + 1,
        final(jvm).classes@.last()@.this_class == "java/lang/System"@,
{
    let cls = java_lang_system()?;
    jvm.load_native_class(cls);
    Ok(())
}

} // verus!
