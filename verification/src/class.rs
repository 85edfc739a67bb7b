//! Class metadata: runtime values, code blocks, field and method records,
//! and the class record itself.
//!
//! Values carry their own tag at runtime; no verification pass is assumed.
//! The 32- and 64-bit floating-point values are carried as raw bit patterns:
//! the executable core moves them between slots but does not compute with
//! them. Fields and methods are looked up under the exact concatenation of
//! their name and descriptor strings, with no separator.

use vstd::prelude::*;

use crate::desc::JType;
use crate::desc::JTypeSpec;
use crate::desc::CompTypeSpec;
use crate::err::VmError;
use crate::pool::ConstantPool;
use crate::pool::CpEntrySpec;

verus! {

pub const ACC_PUBLIC: u16 = 0x0001;

pub const ACC_PRIVATE: u16 = 0x0002;

pub const ACC_PROTECTED: u16 = 0x0004;

pub const ACC_STATIC: u16 = 0x0008;

pub const ACC_FINAL: u16 = 0x0010;

pub const ACC_SUPER: u16 = 0x0020;

pub const ACC_VOLATILE: u16 = 0x0040;

/// Within a field context, transient shares the volatile bit value.
pub const ACC_TRANSIENT: u16 = 0x0040;

pub const ACC_INTERFACE: u16 = 0x0200;

pub const ACC_ABSTRACT: u16 = 0x0400;

/// A tagged runtime value held in one slot of the thread value buffer.
///
/// `Invalid` marks an uninitialized slot and the upper slot of a two-slot
/// (long or double) value. `Null` is the absent reference; object handles
/// are outside the executable core, so `Null` is the only reference value.
#[derive(Debug, Clone, Copy, PartialEq, Eq, Structural)]
pub enum JValue {
    Invalid,
    Null,
    Int(i32),
    Long(i64),
    FloatBits(u32),
    DoubleBits(u64),
}

impl JValue {
    /// Whether a value of this tag occupies two slots.
    pub open spec fn spec_is_wide(self) -> bool {
        self is Long || self is DoubleBits
    }

    /// Whether a value of this tag occupies two slots.
    pub fn is_wide(&self) -> (r: bool)
        ensures
            r == self.spec_is_wide(),
    {
        match self {
            JValue::Long(_) => true,
            JValue::DoubleBits(_) => true,
            _ => false,
        }
    }
}

/// The zero value of a type: 0 for the integer kinds, positive-zero bits for
/// the floating-point kinds, null for references and arrays.
pub open spec fn spec_zero_value(jt: JTypeSpec) -> JValue {
    if jt.array_dim > 0 {
        JValue::Null
    } else {
        match jt.ctype {
            CompTypeSpec::Byte => JValue::Int(0),
            CompTypeSpec::Char => JValue::Int(0),
            CompTypeSpec::Int => JValue::Int(0),
            CompTypeSpec::Short => JValue::Int(0),
            CompTypeSpec::Boolean => JValue::Int(0),
            CompTypeSpec::Long => JValue::Long(0),
            CompTypeSpec::Float => JValue::FloatBits(0),
            CompTypeSpec::Double => JValue::DoubleBits(0),
            CompTypeSpec::Object(_) => JValue::Null,
        }
    }
}

impl JType {
    /// The value a static field of this type holds before initialization.
    pub fn to_default_value(&self) -> (r: JValue)
        ensures
            r == spec_zero_value(self@),
    {
        if self.array_dim > 0 {
            return JValue::Null;
        }
        match &self.ctype {
            crate::desc::JComponentType::Byte => JValue::Int(0),
            crate::desc::JComponentType::Char => JValue::Int(0),
            crate::desc::JComponentType::Int => JValue::Int(0),
            crate::desc::JComponentType::Short => JValue::Int(0),
            crate::desc::JComponentType::Boolean => JValue::Int(0),
            crate::desc::JComponentType::Long => JValue::Long(0),
            crate::desc::JComponentType::Float => JValue::FloatBits(0),
            crate::desc::JComponentType::Double => JValue::DoubleBits(0),
            crate::desc::JComponentType::Object(_) => JValue::Null,
        }
    }
}

/// One exception-table range of a code block: `[start_pc, end_pc)` maps to
/// `handler_pc` for the catch type at constant-pool index `catch_type`;
/// index 0 catches anything.
#[derive(Debug, Clone, Copy, PartialEq, Eq, Structural)]
pub struct ExceptionTableEntry {
    pub start_pc: u16,
    pub end_pc: u16,
    pub handler_pc: u16,
    pub catch_type: u16,
}

/// A method's executable body.
#[derive(Debug)]
pub struct Code {
    pub max_stack: u16,
    pub max_locals: u16,
    pub code: Vec<u8>,
    pub exception_table: Vec<ExceptionTableEntry>,
}

/// Mathematical value of a code block.
#[verifier::ext_equal]
pub struct CodeSpec {
    pub max_stack: u16,
    pub max_locals: u16,
    pub code: Seq<u8>,
    pub exception_table: Seq<ExceptionTableEntry>,
}

impl View for Code {
    type V = CodeSpec;

    open spec fn view(&self) -> CodeSpec {
        CodeSpec {
            max_stack: self.max_stack,
            max_locals: self.max_locals,
            code: self.code@,
            exception_table: self.exception_table@,
        }
    }
}

/// A field record: flags, names, the parsed descriptor, and the optional
/// constant-value initializer of a static field.
#[derive(Debug)]
pub struct FieldInfo {
    pub access_flags: u16,
    pub name: String,
    pub descriptor: String,
    pub name_desc: String,
    pub constant_value: Option<JValue>,
    pub jtype: JType,
}

/// Mathematical value of a field record.
#[verifier::ext_equal]
pub struct FieldInfoSpec {
    pub access_flags: u16,
    pub name: Seq<char>,
    pub descriptor: Seq<char>,
    pub name_desc: Seq<char>,
    pub constant_value: Option<JValue>,
    pub jtype: JTypeSpec,
}

impl View for FieldInfo {
    type V = FieldInfoSpec;

    open spec fn view(&self) -> FieldInfoSpec {
        FieldInfoSpec {
            access_flags: self.access_flags,
            name: self.name@,
            descriptor: self.descriptor@,
            name_desc: self.name_desc@,
            constant_value: self.constant_value,
            jtype: self.jtype@,
        }
    }
}

/// A method record: flags, names, the optional code block, and the parsed
/// parameter and return descriptors (`None` return for void).
#[derive(Debug)]
pub struct MethodInfo {
    pub access_flags: u16,
    pub name: String,
    pub descriptor: String,
    pub name_desc: String,
    pub code: Option<Code>,
    pub ret_type: Option<JType>,
    pub param_types: Vec<JType>,
}

/// Mathematical value of a method record.
#[verifier::ext_equal]
pub struct MethodInfoSpec {
    pub access_flags: u16,
    pub name: Seq<char>,
    pub descriptor: Seq<char>,
    pub name_desc: Seq<char>,
    pub code: Option<CodeSpec>,
    pub ret_type: Option<JTypeSpec>,
    pub param_types: Seq<JTypeSpec>,
}

impl View for MethodInfo {
    type V = MethodInfoSpec;

    open spec fn view(&self) -> MethodInfoSpec {
        MethodInfoSpec {
            access_flags: self.access_flags,
            name: self.name@,
            descriptor: self.descriptor@,
            name_desc: self.name_desc@,
            code: match &self.code {
                Some(c) => Some(c@),
                None => None,
            },
            ret_type: match &self.ret_type {
                Some(t) => Some(t@),
                None => None,
            },
            param_types: self.param_types@.map_values(|t: JType| t@),
        }
    }
}

/// A loaded class: its resolved constant pool, flags, its own and its
/// super-class internal names, implemented interfaces, and its field and
/// method records.
#[derive(Debug)]
pub struct JClass {
    pub constant_pool: ConstantPool,
    pub access_flags: u16,
    pub this_class: String,
    pub super_class: Option<String>,
    pub interfaces: Vec<String>,
    pub fields: Vec<FieldInfo>,
    pub methods: Vec<MethodInfo>,
}

/// Mathematical value of a class record.
#[verifier::ext_equal]
pub struct JClassSpec {
    pub constant_pool: Seq<CpEntrySpec>,
    pub access_flags: u16,
    pub this_class: Seq<char>,
    pub super_class: Option<Seq<char>>,
    pub interfaces: Seq<Seq<char>>,
    pub fields: Seq<FieldInfoSpec>,
    pub methods: Seq<MethodInfoSpec>,
}

impl View for JClass {
    type V = JClassSpec;

    open spec fn view(&self) -> JClassSpec {
        JClassSpec {
            constant_pool: self.constant_pool@,
            access_flags: self.access_flags,
            this_class: self.this_class@,
            super_class: match &self.super_class {
                Some(s) => Some(s@),
                None => None,
            },
            interfaces: self.interfaces@.map_values(|s: String| s@),
            fields: self.fields@.map_values(|f: FieldInfo| f@),
            methods: self.methods@.map_values(|m: MethodInfo| m@),
        }
    }
}

impl JClass {
    /// Look up a method under the concatenation of its name and descriptor
    /// (`"m" + "(I)V"`), returning its index among the class's methods. When
    /// several records share the key, the last one wins, as for repeated
    /// insertions in a map. `VmError::MethodNotFound` when no record
    /// matches.
    pub fn get_method(&self, name_desc: &str) -> (r: Result<usize, VmError>)
        ensures
            r matches Ok(m) ==> m < self@.methods.len() && self@.methods[m as int].name_desc
                == name_desc@ && (forall|j: int|
                m < j < self@.methods.len() ==> #[trigger] self@.methods[j].name_desc
                    != name_desc@),
            r is Err ==> (forall|j: int|
                0 <= j < self@.methods.len() ==> #[trigger] self@.methods[j].name_desc
                    != name_desc@) && r == Err::<usize, VmError>(VmError::MethodNotFound),
    {
        let key: String = name_desc.to_owned();
        let n = self.methods.len();
        let mut i: usize = n;
        while i > 0
            invariant
                i <= n,
                n == self.methods@.len(),
                forall|j: int|
                    i <= j < n ==> (#[trigger] self.methods@[j])@.name_desc != name_desc@,
                key@ == name_desc@,
            decreases i,
        {
            i = i - 1;
            let m = &self.methods[i];
            if m.name_desc == key {
                proof {
                    assert(self@.methods[i as int].name_desc == name_desc@);
                    assert(forall|j: int|
                        i < j < n ==> #[trigger] self@.methods[j].name_desc != name_desc@);
                }
                return Ok(i);
            }
        }
        proof {
            assert(forall|j: int|
                0 <= j < n ==> #[trigger] self@.methods[j].name_desc != name_desc@);
        }
        Err(VmError::MethodNotFound)
    }
}

} // verus!
