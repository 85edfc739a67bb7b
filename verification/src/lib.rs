//! A verified core of a stack-based class-file virtual machine.
//!
//! The crate decodes binary class files into class metadata, resolves the
//! constant pool into self-contained entries, parses type descriptors, and
//! interprets method bytecode on a per-thread frame stack.

pub mod class;
pub mod desc;
pub mod err;
pub mod interp;
pub mod op;
pub mod parse;
pub mod pool;
pub mod reader;
pub mod stdlib;

pub use class::Code;
pub use class::ExceptionTableEntry;
pub use class::FieldInfo;
pub use class::JClass;
pub use class::JValue;
pub use class::MethodInfo;
pub use desc::parse_field_desc;
pub use desc::parse_field_desc_one;
pub use desc::parse_method_desc;
pub use desc::JComponentType;
pub use desc::JType;
pub use err::VmError;
pub use interp::JThreadContext;
pub use interp::JVM;
pub use op::next_op;
pub use op::Op;
pub use parse::parse_class_file;
pub use stdlib::load_core as stdlib_load_core;
