//! Bytecode instructions and their decoder.
//!
//! `next_op` reads one instruction at a program counter inside a code array.
//! All multi-byte immediates are big-endian; signed immediates are two's
//! complement. The two switch instructions pad after the opcode byte so that
//! their operands start on a four-byte boundary relative to the start of the
//! code array, so the decoder takes the program counter itself rather than a
//! pre-sliced input. Branch instructions only carry their signed offset;
//! taking the branch is the interpreter's concern.
//!
//! The `wide` prefix extends the local-variable index (and the `iinc`
//! constant) of the next instruction to 16 bits; it is decoded into the
//! dedicated `Wide*` instruction forms.
//!
//! `spec_can_decode` says exactly which inputs decode, and `op_decode_post`
//! says what instruction and length come back; `next_op` returns
//! `VmError::MalformedBytecode` exactly on the inputs that do not decode
//! (unknown or reserved opcodes, and instructions truncated by the end of
//! the code array).

use vstd::prelude::*;

use crate::err::VmError;

verus! {

/// One decoded instruction.
#[derive(Debug, Clone, PartialEq)]
pub enum Op {
    Nop,
    AconstNull,
    IconstM1,
    Iconst0,
    Iconst1,
    Iconst2,
    Iconst3,
    Iconst4,
    Iconst5,
    Lconst0,
    Lconst1,
    Fconst0,
    Fconst1,
    Fconst2,
    Dconst0,
    Dconst1,
    Bipush { byte: u8 },
    Sipush { bytes: u16 },
    Ldc { index: u8 },
    LdcW { index: u16 },
    Ldc2W { index: u16 },
    Iload { index: u8 },
    Lload { index: u8 },
    Fload { index: u8 },
    Dload { index: u8 },
    Aload { index: u8 },
    Iload0,
    Iload1,
    Iload2,
    Iload3,
    Lload0,
    Lload1,
    Lload2,
    Lload3,
    Fload0,
    Fload1,
    Fload2,
    Fload3,
    Dload0,
    Dload1,
    Dload2,
    Dload3,
    Aload0,
    Aload1,
    Aload2,
    Aload3,
    Iaload,
    Laload,
    Faload,
    Daload,
    Aaload,
    Baload,
    Caload,
    Saload,
    Istore { index: u8 },
    Lstore { index: u8 },
    Fstore { index: u8 },
    Dstore { index: u8 },
    Astore { index: u8 },
    Istore0,
    Istore1,
    Istore2,
    Istore3,
    Lstore0,
    Lstore1,
    Lstore2,
    Lstore3,
    Fstore0,
    Fstore1,
    Fstore2,
    Fstore3,
    Dstore0,
    Dstore1,
    Dstore2,
    Dstore3,
    Astore0,
    Astore1,
    Astore2,
    Astore3,
    Iastore,
    Lastore,
    Fastore,
    Dastore,
    Aastore,
    Bastore,
    Castore,
    Sastore,
    Pop,
    Pop2,
    Dup,
    DupX1,
    DupX2,
    Dup2,
    Dup2X1,
    Dup2X2,
    Swap,
    Iadd,
    Ladd,
    Fadd,
    Dadd,
    Isub,
    Lsub,
    Fsub,
    Dsub,
    Imul,
    Lmul,
    Fmul,
    Dmul,
    Idiv,
    Ldiv,
    Fdiv,
    Ddiv,
    Irem,
    Lrem,
    Frem,
    Drem,
    Ineg,
    Lneg,
    Fneg,
    Dneg,
    Ishl,
    Lshl,
    Ishr,
    Lshr,
    Iushr,
    Lushr,
    Iand,
    Land,
    Ior,
    Lor,
    Ixor,
    Lxor,
    Iinc { index: u8, constant: i8 },
    I2L,
    I2F,
    I2D,
    L2I,
    L2F,
    L2D,
    F2I,
    F2L,
    F2D,
    D2I,
    D2L,
    D2F,
    I2B,
    I2C,
    I2S,
    Lcmp,
    Fcmpl,
    Fcmpg,
    Dcmpl,
    Dcmpg,
    Ifeq { branch: i16 },
    Ifne { branch: i16 },
    Iflt { branch: i16 },
    Ifge { branch: i16 },
    Ifgt { branch: i16 },
    Ifle { branch: i16 },
    IfIcmpeq { branch: i16 },
    IfIcmpne { branch: i16 },
    IfIcmplt { branch: i16 },
    IfIcmpge { branch: i16 },
    IfIcmpgt { branch: i16 },
    IfIcmple { branch: i16 },
    IfAcmpeq { branch: i16 },
    IfAcmpne { branch: i16 },
    Goto { branch: i16 },
    Jsr { branch: i16 },
    Ret { index: u8 },
    Tableswitch { default: i32, low: i32, high: i32, jump_offsets: Vec<i32> },
    Lookupswitch { default: i32, npairs: i32, match_offsets: Vec<(i32, i32)> },
    Ireturn,
    Lreturn,
    Freturn,
    Dreturn,
    Areturn,
    Return,
    Getstatic { index: u16 },
    Putstatic { index: u16 },
    Getfield { index: u16 },
    Putfield { index: u16 },
    Invokevirtual { index: u16 },
    Invokespecial { index: u16 },
    Invokestatic { index: u16 },
    Invokeinterface { index: u16, count: u8 },
    Invokedynamic { index: u16 },
    New { index: u16 },
    Newarray { atype: u8 },
    Anewarray { index: u16 },
    Arraylength,
    Athrow,
    Checkcast { index: u16 },
    Instanceof { index: u16 },
    Monitorenter,
    Monitorexit,
    WideIload { index: u16 },
    WideLload { index: u16 },
    WideFload { index: u16 },
    WideDload { index: u16 },
    WideAload { index: u16 },
    WideIstore { index: u16 },
    WideLstore { index: u16 },
    WideFstore { index: u16 },
    WideDstore { index: u16 },
    WideAstore { index: u16 },
    WideRet { index: u16 },
    WideIinc { index: u16, constant: i16 },
    Multianewarray { index: u16, dimensions: u8 },
    Ifnull { branch: i16 },
    Ifnonnull { branch: i16 },
    GotoW { branch: i32 },
    JsrW { branch: i32 },
}

/// The big-endian 16-bit value at `s[i]`, `s[i + 1]`.
pub open spec fn spec_be16(s: Seq<u8>, i: int) -> u16 {
    (s[i] * 256 + s[i + 1]) as u16
}

/// The big-endian 32-bit value at `s[i]`..`s[i + 3]`.
pub open spec fn spec_be32(s: Seq<u8>, i: int) -> u32 {
    (s[i] * 0x1000000 + s[i + 1] * 0x10000 + s[i + 2] * 0x100 + s[i + 3]) as u32
}

/// A byte reinterpreted as a signed two's-complement value.
pub open spec fn spec_as_i8(b: u8) -> i8 {
    (if b < 0x80 {
        b as int
    } else {
        b - 0x100
    }) as i8
}

/// The big-endian 16-bit signed value at `s[i]`.
pub open spec fn spec_be_i16(s: Seq<u8>, i: int) -> i16 {
    (if spec_be16(s, i) < 0x8000 {
        spec_be16(s, i) as int
    } else {
        spec_be16(s, i) - 0x10000
    }) as i16
}

/// The big-endian 32-bit signed value at `s[i]`.
pub open spec fn spec_be_i32(s: Seq<u8>, i: int) -> i32 {
    (if spec_be32(s, i) < 0x80000000 {
        spec_be32(s, i) as int
    } else {
        spec_be32(s, i) - 0x100000000
    }) as i32
}

/// Read the big-endian 16-bit value at `s[i]`.
pub fn read_be16(s: &[u8], i: usize) -> (r: u16)
    requires
        i + 2 <= s@.len(),
    ensures
        r == spec_be16(s@, i as int),
{
    let b0 = s[i];
    let b1 = s[i + 1];
    b0 as u16 * 256 + b1 as u16
}

/// Read the big-endian 32-bit value at `s[i]`.
pub fn read_be32(s: &[u8], i: usize) -> (r: u32)
    requires
        i + 4 <= s@.len(),
    ensures
        r == spec_be32(s@, i as int),
{
    let b0 = s[i];
    let b1 = s[i + 1];
    let b2 = s[i + 2];
    let b3 = s[i + 3];
    b0 as u32 * 0x1000000 + b1 as u32 * 0x10000 + b2 as u32 * 0x100 + b3 as u32
}

/// Reinterpret a byte as a signed value.
pub fn u8_to_i8(b: u8) -> (r: i8)
    ensures
        r == spec_as_i8(b),
{
    if b < 0x80 {
        b as i8
    } else {
        -((0xffu8 - b) as i8) - 1
    }
}

/// Reinterpret a 16-bit value as signed.
pub fn u16_to_i16(v: u16) -> (r: i16)
    ensures
        r as int == (if v < 0x8000 { v as int } else { v - 0x10000 }),
{
    if v < 0x8000 {
        v as i16
    } else {
        -((0xffffu16 - v) as i16) - 1
    }
}

/// Reinterpret a 32-bit value as signed.
pub fn u32_to_i32(v: u32) -> (r: i32)
    ensures
        r as int == (if v < 0x80000000 { v as int } else { v - 0x100000000 }),
{
    if v < 0x80000000 {
        v as i32
    } else {
        -((0xffffffffu32 - v) as i32) - 1
    }
}

/// Reinterpret a 64-bit value as signed.
pub fn u64_to_i64(v: u64) -> (r: i64)
    ensures
        r as int == (if v < 0x8000000000000000 { v as int } else { v - 0x10000000000000000 }),
{
    if v < 0x8000000000000000 {
        v as i64
    } else {
        -((0xffffffffffffffffu64 - v) as i64) - 1
    }
}

/// Read the big-endian 16-bit signed value at `s[i]`.
pub fn read_be_i16(s: &[u8], i: usize) -> (r: i16)
    requires
        i + 2 <= s@.len(),
    ensures
        r == spec_be_i16(s@, i as int),
{
    u16_to_i16(read_be16(s, i))
}

/// Read the big-endian 32-bit signed value at `s[i]`.
pub fn read_be_i32(s: &[u8], i: usize) -> (r: i32)
    requires
        i + 4 <= s@.len(),
    ensures
        r == spec_be_i32(s@, i as int),
{
    u32_to_i32(read_be32(s, i))
}

/// The instruction a one-byte opcode denotes, if the opcode stands alone.
pub open spec fn spec_one_byte_op(b: u8) -> Option<Op> {
    match b {
        0x00 => Some(Op::Nop),
        0x01 => Some(Op::AconstNull),
        0x02 => Some(Op::IconstM1),
        0x03 => Some(Op::Iconst0),
        0x04 => Some(Op::Iconst1),
        0x05 => Some(Op::Iconst2),
        0x06 => Some(Op::Iconst3),
        0x07 => Some(Op::Iconst4),
        0x08 => Some(Op::Iconst5),
        0x09 => Some(Op::Lconst0),
        0x0a => Some(Op::Lconst1),
        0x0b => Some(Op::Fconst0),
        0x0c => Some(Op::Fconst1),
        0x0d => Some(Op::Fconst2),
        0x0e => Some(Op::Dconst0),
        0x0f => Some(Op::Dconst1),
        0x1a => Some(Op::Iload0),
        0x1b => Some(Op::Iload1),
        0x1c => Some(Op::Iload2),
        0x1d => Some(Op::Iload3),
        0x1e => Some(Op::Lload0),
        0x1f => Some(Op::Lload1),
        0x20 => Some(Op::Lload2),
        0x21 => Some(Op::Lload3),
        0x22 => Some(Op::Fload0),
        0x23 => Some(Op::Fload1),
        0x24 => Some(Op::Fload2),
        0x25 => Some(Op::Fload3),
        0x26 => Some(Op::Dload0),
        0x27 => Some(Op::Dload1),
        0x28 => Some(Op::Dload2),
        0x29 => Some(Op::Dload3),
        0x2a => Some(Op::Aload0),
        0x2b => Some(Op::Aload1),
        0x2c => Some(Op::Aload2),
        0x2d => Some(Op::Aload3),
        0x2e => Some(Op::Iaload),
        0x2f => Some(Op::Laload),
        0x30 => Some(Op::Faload),
        0x31 => Some(Op::Daload),
        0x32 => Some(Op::Aaload),
        0x33 => Some(Op::Baload),
        0x34 => Some(Op::Caload),
        0x35 => Some(Op::Saload),
        0x3b => Some(Op::Istore0),
        0x3c => Some(Op::Istore1),
        0x3d => Some(Op::Istore2),
        0x3e => Some(Op::Istore3),
        0x3f => Some(Op::Lstore0),
        0x40 => Some(Op::Lstore1),
        0x41 => Some(Op::Lstore2),
        0x42 => Some(Op::Lstore3),
        0x43 => Some(Op::Fstore0),
        0x44 => Some(Op::Fstore1),
        0x45 => Some(Op::Fstore2),
        0x46 => Some(Op::Fstore3),
        0x47 => Some(Op::Dstore0),
        0x48 => Some(Op::Dstore1),
        0x49 => Some(Op::Dstore2),
        0x4a => Some(Op::Dstore3),
        0x4b => Some(Op::Astore0),
        0x4c => Some(Op::Astore1),
        0x4d => Some(Op::Astore2),
        0x4e => Some(Op::Astore3),
        0x4f => Some(Op::Iastore),
        0x50 => Some(Op::Lastore),
        0x51 => Some(Op::Fastore),
        0x52 => Some(Op::Dastore),
        0x53 => Some(Op::Aastore),
        0x54 => Some(Op::Bastore),
        0x55 => Some(Op::Castore),
        0x56 => Some(Op::Sastore),
        0x57 => Some(Op::Pop),
        0x58 => Some(Op::Pop2),
        0x59 => Some(Op::Dup),
        0x5a => Some(Op::DupX1),
        0x5b => Some(Op::DupX2),
        0x5c => Some(Op::Dup2),
        0x5d => Some(Op::Dup2X1),
        0x5e => Some(Op::Dup2X2),
        0x5f => Some(Op::Swap),
        0x60 => Some(Op::Iadd),
        0x61 => Some(Op::Ladd),
        0x62 => Some(Op::Fadd),
        0x63 => Some(Op::Dadd),
        0x64 => Some(Op::Isub),
        0x65 => Some(Op::Lsub),
        0x66 => Some(Op::Fsub),
        0x67 => Some(Op::Dsub),
        0x68 => Some(Op::Imul),
        0x69 => Some(Op::Lmul),
        0x6a => Some(Op::Fmul),
        0x6b => Some(Op::Dmul),
        0x6c => Some(Op::Idiv),
        0x6d => Some(Op::Ldiv),
        0x6e => Some(Op::Fdiv),
        0x6f => Some(Op::Ddiv),
        0x70 => Some(Op::Irem),
        0x71 => Some(Op::Lrem),
        0x72 => Some(Op::Frem),
        0x73 => Some(Op::Drem),
        0x74 => Some(Op::Ineg),
        0x75 => Some(Op::Lneg),
        0x76 => Some(Op::Fneg),
        0x77 => Some(Op::Dneg),
        0x78 => Some(Op::Ishl),
        0x79 => Some(Op::Lshl),
        0x7a => Some(Op::Ishr),
        0x7b => Some(Op::Lshr),
        0x7c => Some(Op::Iushr),
        0x7d => Some(Op::Lushr),
        0x7e => Some(Op::Iand),
        0x7f => Some(Op::Land),
        0x80 => Some(Op::Ior),
        0x81 => Some(Op::Lor),
        0x82 => Some(Op::Ixor),
        0x83 => Some(Op::Lxor),
        0x85 => Some(Op::I2L),
        0x86 => Some(Op::I2F),
        0x87 => Some(Op::I2D),
        0x88 => Some(Op::L2I),
        0x89 => Some(Op::L2F),
        0x8a => Some(Op::L2D),
        0x8b => Some(Op::F2I),
        0x8c => Some(Op::F2L),
        0x8d => Some(Op::F2D),
        0x8e => Some(Op::D2I),
        0x8f => Some(Op::D2L),
        0x90 => Some(Op::D2F),
        0x91 => Some(Op::I2B),
        0x92 => Some(Op::I2C),
        0x93 => Some(Op::I2S),
        0x94 => Some(Op::Lcmp),
        0x95 => Some(Op::Fcmpl),
        0x96 => Some(Op::Fcmpg),
        0x97 => Some(Op::Dcmpl),
        0x98 => Some(Op::Dcmpg),
        0xac => Some(Op::Ireturn),
        0xad => Some(Op::Lreturn),
        0xae => Some(Op::Freturn),
        0xaf => Some(Op::Dreturn),
        0xb0 => Some(Op::Areturn),
        0xb1 => Some(Op::Return),
        0xbe => Some(Op::Arraylength),
        0xbf => Some(Op::Athrow),
        0xc2 => Some(Op::Monitorenter),
        0xc3 => Some(Op::Monitorexit),
        _ => None,
    }
}

/// Executable form of `spec_one_byte_op`.
pub fn one_byte_op(b: u8) -> (r: Option<Op>)
    ensures
        r == spec_one_byte_op(b),
{
    match b {
        0x00 => Some(Op::Nop),
        0x01 => Some(Op::AconstNull),
        0x02 => Some(Op::IconstM1),
        0x03 => Some(Op::Iconst0),
        0x04 => Some(Op::Iconst1),
        0x05 => Some(Op::Iconst2),
        0x06 => Some(Op::Iconst3),
        0x07 => Some(Op::Iconst4),
        0x08 => Some(Op::Iconst5),
        0x09 => Some(Op::Lconst0),
        0x0a => Some(Op::Lconst1),
        0x0b => Some(Op::Fconst0),
        0x0c => Some(Op::Fconst1),
        0x0d => Some(Op::Fconst2),
        0x0e => Some(Op::Dconst0),
        0x0f => Some(Op::Dconst1),
        0x1a => Some(Op::Iload0),
        0x1b => Some(Op::Iload1),
        0x1c => Some(Op::Iload2),
        0x1d => Some(Op::Iload3),
        0x1e => Some(Op::Lload0),
        0x1f => Some(Op::Lload1),
        0x20 => Some(Op::Lload2),
        0x21 => Some(Op::Lload3),
        0x22 => Some(Op::Fload0),
        0x23 => Some(Op::Fload1),
        0x24 => Some(Op::Fload2),
        0x25 => Some(Op::Fload3),
        0x26 => Some(Op::Dload0),
        0x27 => Some(Op::Dload1),
        0x28 => Some(Op::Dload2),
        0x29 => Some(Op::Dload3),
        0x2a => Some(Op::Aload0),
        0x2b => Some(Op::Aload1),
        0x2c => Some(Op::Aload2),
        0x2d => Some(Op::Aload3),
        0x2e => Some(Op::Iaload),
        0x2f => Some(Op::Laload),
        0x30 => Some(Op::Faload),
        0x31 => Some(Op::Daload),
        0x32 => Some(Op::Aaload),
        0x33 => Some(Op::Baload),
        0x34 => Some(Op::Caload),
        0x35 => Some(Op::Saload),
        0x3b => Some(Op::Istore0),
        0x3c => Some(Op::Istore1),
        0x3d => Some(Op::Istore2),
        0x3e => Some(Op::Istore3),
        0x3f => Some(Op::Lstore0),
        0x40 => Some(Op::Lstore1),
        0x41 => Some(Op::Lstore2),
        0x42 => Some(Op::Lstore3),
        0x43 => Some(Op::Fstore0),
        0x44 => Some(Op::Fstore1),
        0x45 => Some(Op::Fstore2),
        0x46 => Some(Op::Fstore3),
        0x47 => Some(Op::Dstore0),
        0x48 => Some(Op::Dstore1),
        0x49 => Some(Op::Dstore2),
        0x4a => Some(Op::Dstore3),
        0x4b => Some(Op::Astore0),
        0x4c => Some(Op::Astore1),
        0x4d => Some(Op::Astore2),
        0x4e => Some(Op::Astore3),
        0x4f => Some(Op::Iastore),
        0x50 => Some(Op::Lastore),
        0x51 => Some(Op::Fastore),
        0x52 => Some(Op::Dastore),
        0x53 => Some(Op::Aastore),
        0x54 => Some(Op::Bastore),
        0x55 => Some(Op::Castore),
        0x56 => Some(Op::Sastore),
        0x57 => Some(Op::Pop),
        0x58 => Some(Op::Pop2),
        0x59 => Some(Op::Dup),
        0x5a => Some(Op::DupX1),
        0x5b => Some(Op::DupX2),
        0x5c => Some(Op::Dup2),
        0x5d => Some(Op::Dup2X1),
        0x5e => Some(Op::Dup2X2),
        0x5f => Some(Op::Swap),
        0x60 => Some(Op::Iadd),
        0x61 => Some(Op::Ladd),
        0x62 => Some(Op::Fadd),
        0x63 => Some(Op::Dadd),
        0x64 => Some(Op::Isub),
        0x65 => Some(Op::Lsub),
        0x66 => Some(Op::Fsub),
        0x67 => Some(Op::Dsub),
        0x68 => Some(Op::Imul),
        0x69 => Some(Op::Lmul),
        0x6a => Some(Op::Fmul),
        0x6b => Some(Op::Dmul),
        0x6c => Some(Op::Idiv),
        0x6d => Some(Op::Ldiv),
        0x6e => Some(Op::Fdiv),
        0x6f => Some(Op::Ddiv),
        0x70 => Some(Op::Irem),
        0x71 => Some(Op::Lrem),
        0x72 => Some(Op::Frem),
        0x73 => Some(Op::Drem),
        0x74 => Some(Op::Ineg),
        0x75 => Some(Op::Lneg),
        0x76 => Some(Op::Fneg),
        0x77 => Some(Op::Dneg),
        0x78 => Some(Op::Ishl),
        0x79 => Some(Op::Lshl),
        0x7a => Some(Op::Ishr),
        0x7b => Some(Op::Lshr),
        0x7c => Some(Op::Iushr),
        0x7d => Some(Op::Lushr),
        0x7e => Some(Op::Iand),
        0x7f => Some(Op::Land),
        0x80 => Some(Op::Ior),
        0x81 => Some(Op::Lor),
        0x82 => Some(Op::Ixor),
        0x83 => Some(Op::Lxor),
        0x85 => Some(Op::I2L),
        0x86 => Some(Op::I2F),
        0x87 => Some(Op::I2D),
        0x88 => Some(Op::L2I),
        0x89 => Some(Op::L2F),
        0x8a => Some(Op::L2D),
        0x8b => Some(Op::F2I),
        0x8c => Some(Op::F2L),
        0x8d => Some(Op::F2D),
        0x8e => Some(Op::D2I),
        0x8f => Some(Op::D2L),
        0x90 => Some(Op::D2F),
        0x91 => Some(Op::I2B),
        0x92 => Some(Op::I2C),
        0x93 => Some(Op::I2S),
        0x94 => Some(Op::Lcmp),
        0x95 => Some(Op::Fcmpl),
        0x96 => Some(Op::Fcmpg),
        0x97 => Some(Op::Dcmpl),
        0x98 => Some(Op::Dcmpg),
        0xac => Some(Op::Ireturn),
        0xad => Some(Op::Lreturn),
        0xae => Some(Op::Freturn),
        0xaf => Some(Op::Dreturn),
        0xb0 => Some(Op::Areturn),
        0xb1 => Some(Op::Return),
        0xbe => Some(Op::Arraylength),
        0xbf => Some(Op::Athrow),
        0xc2 => Some(Op::Monitorenter),
        0xc3 => Some(Op::Monitorexit),
        _ => None,
    }
}

/// Decoding of the instructions whose operands have a fixed width, at
/// position `pc` of `s`. The switch instructions and the `wide` prefix are
/// described separately.
pub open spec fn spec_multi_decode(s: Seq<u8>, pc: int) -> Option<(Op, int)> {
    let b = s[pc];
    if b == 0x10 {
        if pc + 2 <= s.len() {
            Some((Op::Bipush { byte: s[pc + 1] }, 2))
        } else {
            None
        }
    } else if b == 0x11 {
        if pc + 3 <= s.len() {
            Some((Op::Sipush { bytes: spec_be16(s, pc + 1) }, 3))
        } else {
            None
        }
    } else if b == 0x12 {
        if pc + 2 <= s.len() {
            Some((Op::Ldc { index: s[pc + 1] }, 2))
        } else {
            None
        }
    } else if b == 0x13 {
        if pc + 3 <= s.len() {
            Some((Op::LdcW { index: spec_be16(s, pc + 1) }, 3))
        } else {
            None
        }
    } else if b == 0x14 {
        if pc + 3 <= s.len() {
            Some((Op::Ldc2W { index: spec_be16(s, pc + 1) }, 3))
        } else {
            None
        }
    } else if b == 0x15 {
        if pc + 2 <= s.len() {
            Some((Op::Iload { index: s[pc + 1] }, 2))
        } else {
            None
        }
    } else if b == 0x16 {
        if pc + 2 <= s.len() {
            Some((Op::Lload { index: s[pc + 1] }, 2))
        } else {
            None
        }
    } else if b == 0x17 {
        if pc + 2 <= s.len() {
            Some((Op::Fload { index: s[pc + 1] }, 2))
        } else {
            None
        }
    } else if b == 0x18 {
        if pc + 2 <= s.len() {
            Some((Op::Dload { index: s[pc + 1] }, 2))
        } else {
            None
        }
    } else if b == 0x19 {
        if pc + 2 <= s.len() {
            Some((Op::Aload { index: s[pc + 1] }, 2))
        } else {
            None
        }
    } else if b == 0x36 {
        if pc + 2 <= s.len() {
            Some((Op::Istore { index: s[pc + 1] }, 2))
        } else {
            None
        }
    } else if b == 0x37 {
        if pc + 2 <= s.len() {
            Some((Op::Lstore { index: s[pc + 1] }, 2))
        } else {
            None
        }
    } else if b == 0x38 {
        if pc + 2 <= s.len() {
            Some((Op::Fstore { index: s[pc + 1] }, 2))
        } else {
            None
        }
    } else if b == 0x39 {
        if pc + 2 <= s.len() {
            Some((Op::Dstore { index: s[pc + 1] }, 2))
        } else {
            None
        }
    } else if b == 0x3a {
        if pc + 2 <= s.len() {
            Some((Op::Astore { index: s[pc + 1] }, 2))
        } else {
            None
        }
    } else if b == 0x84 {
        if pc + 3 <= s.len() {
            Some((Op::Iinc { index: s[pc + 1], constant: spec_as_i8(s[pc + 2]) }, 3))
        } else {
            None
        }
    } else if b == 0x99 {
        if pc + 3 <= s.len() {
            Some((Op::Ifeq { branch: spec_be_i16(s, pc + 1) }, 3))
        } else {
            None
        }
    } else if b == 0x9a {
        if pc + 3 <= s.len() {
            Some((Op::Ifne { branch: spec_be_i16(s, pc + 1) }, 3))
        } else {
            None
        }
    } else if b == 0x9b {
        if pc + 3 <= s.len() {
            Some((Op::Iflt { branch: spec_be_i16(s, pc + 1) }, 3))
        } else {
            None
        }
    } else if b == 0x9c {
        if pc + 3 <= s.len() {
            Some((Op::Ifge { branch: spec_be_i16(s, pc + 1) }, 3))
        } else {
            None
        }
    } else if b == 0x9d {
        if pc + 3 <= s.len() {
            Some((Op::Ifgt { branch: spec_be_i16(s, pc + 1) }, 3))
        } else {
            None
        }
    } else if b == 0x9e {
        if pc + 3 <= s.len() {
            Some((Op::Ifle { branch: spec_be_i16(s, pc + 1) }, 3))
        } else {
            None
        }
    } else if b == 0x9f {
        if pc + 3 <= s.len() {
            Some((Op::IfIcmpeq { branch: spec_be_i16(s, pc + 1) }, 3))
        } else {
            None
        }
    } else if b == 0xa0 {
        if pc + 3 <= s.len() {
            Some((Op::IfIcmpne { branch: spec_be_i16(s, pc + 1) }, 3))
        } else {
            None
        }
    } else if b == 0xa1 {
        if pc + 3 <= s.len() {
            Some((Op::IfIcmplt { branch: spec_be_i16(s, pc + 1) }, 3))
        } else {
            None
        }
    } else if b == 0xa2 {
        if pc + 3 <= s.len() {
            Some((Op::IfIcmpge { branch: spec_be_i16(s, pc + 1) }, 3))
        } else {
            None
        }
    } else if b == 0xa3 {
        if pc + 3 <= s.len() {
            Some((Op::IfIcmpgt { branch: spec_be_i16(s, pc + 1) }, 3))
        } else {
            None
        }
    } else if b == 0xa4 {
        if pc + 3 <= s.len() {
            Some((Op::IfIcmple { branch: spec_be_i16(s, pc + 1) }, 3))
        } else {
            None
        }
    } else if b == 0xa5 {
        if pc + 3 <= s.len() {
            Some((Op::IfAcmpeq { branch: spec_be_i16(s, pc + 1) }, 3))
        } else {
            None
        }
    } else if b == 0xa6 {
        if pc + 3 <= s.len() {
            Some((Op::IfAcmpne { branch: spec_be_i16(s, pc + 1) }, 3))
        } else {
            None
        }
    } else if b == 0xa7 {
        if pc + 3 <= s.len() {
            Some((Op::Goto { branch: spec_be_i16(s, pc + 1) }, 3))
        } else {
            None
        }
    } else if b == 0xa8 {
        if pc + 3 <= s.len() {
            Some((Op::Jsr { branch: spec_be_i16(s, pc + 1) }, 3))
        } else {
            None
        }
    } else if b == 0xa9 {
        if pc + 2 <= s.len() {
            Some((Op::Ret { index: s[pc + 1] }, 2))
        } else {
            None
        }
    } else if b == 0xb2 {
        if pc + 3 <= s.len() {
            Some((Op::Getstatic { index: spec_be16(s, pc + 1) }, 3))
        } else {
            None
        }
    } else if b == 0xb3 {
        if pc + 3 <= s.len() {
            Some((Op::Putstatic { index: spec_be16(s, pc + 1) }, 3))
        } else {
            None
        }
    } else if b == 0xb4 {
        if pc + 3 <= s.len() {
            Some((Op::Getfield { index: spec_be16(s, pc + 1) }, 3))
        } else {
            None
        }
    } else if b == 0xb5 {
        if pc + 3 <= s.len() {
            Some((Op::Putfield { index: spec_be16(s, pc + 1) }, 3))
        } else {
            None
        }
    } else if b == 0xb6 {
        if pc + 3 <= s.len() {
            Some((Op::Invokevirtual { index: spec_be16(s, pc + 1) }, 3))
        } else {
            None
        }
    } else if b == 0xb7 {
        if pc + 3 <= s.len() {
            Some((Op::Invokespecial { index: spec_be16(s, pc + 1) }, 3))
        } else {
            None
        }
    } else if b == 0xb8 {
        if pc + 3 <= s.len() {
            Some((Op::Invokestatic { index: spec_be16(s, pc + 1) }, 3))
        } else {
            None
        }
    } else if b == 0xbb {
        if pc + 3 <= s.len() {
            Some((Op::New { index: spec_be16(s, pc + 1) }, 3))
        } else {
            None
        }
    } else if b == 0xbc {
        if pc + 2 <= s.len() {
            Some((Op::Newarray { atype: s[pc + 1] }, 2))
        } else {
            None
        }
    } else if b == 0xbd {
        if pc + 3 <= s.len() {
            Some((Op::Anewarray { index: spec_be16(s, pc + 1) }, 3))
        } else {
            None
        }
    } else if b == 0xc0 {
        if pc + 3 <= s.len() {
            Some((Op::Checkcast { index: spec_be16(s, pc + 1) }, 3))
        } else {
            None
        }
    } else if b == 0xc1 {
        if pc + 3 <= s.len() {
            Some((Op::Instanceof { index: spec_be16(s, pc + 1) }, 3))
        } else {
            None
        }
    } else if b == 0xc5 {
        if pc + 4 <= s.len() {
            Some((Op::Multianewarray { index: spec_be16(s, pc + 1), dimensions: s[pc + 3] }, 4))
        } else {
            None
        }
    } else if b == 0xc6 {
        if pc + 3 <= s.len() {
            Some((Op::Ifnull { branch: spec_be_i16(s, pc + 1) }, 3))
        } else {
            None
        }
    } else if b == 0xc7 {
        if pc + 3 <= s.len() {
            Some((Op::Ifnonnull { branch: spec_be_i16(s, pc + 1) }, 3))
        } else {
            None
        }
    } else if b == 0xc8 {
        if pc + 5 <= s.len() {
            Some((Op::GotoW { branch: spec_be_i32(s, pc + 1) }, 5))
        } else {
            None
        }
    } else if b == 0xc9 {
        if pc + 5 <= s.len() {
            Some((Op::JsrW { branch: spec_be_i32(s, pc + 1) }, 5))
        } else {
            None
        }
    } else if b == 0xb9 {
        if pc + 5 <= s.len() && s[pc + 4] == 0 {
            Some((Op::Invokeinterface { index: spec_be16(s, pc + 1), count: s[pc + 3] }, 5))
        } else {
            None
        }
    } else if b == 0xba {
        if pc + 5 <= s.len() && s[pc + 3] == 0 && s[pc + 4] == 0 {
            Some((Op::Invokedynamic { index: spec_be16(s, pc + 1) }, 5))
        } else {
            None
        }
    } else if b == 0xc4 {
        if pc + 2 <= s.len() {
            let wop = s[pc + 1];
            if wop == 0x15 {
                if pc + 4 <= s.len() {
                    Some((Op::WideIload { index: spec_be16(s, pc + 2) }, 4))
                } else {
                    None
                }
            } else if wop == 0x16 {
                if pc + 4 <= s.len() {
                    Some((Op::WideLload { index: spec_be16(s, pc + 2) }, 4))
                } else {
                    None
                }
            } else if wop == 0x17 {
                if pc + 4 <= s.len() {
                    Some((Op::WideFload { index: spec_be16(s, pc + 2) }, 4))
                } else {
                    None
                }
            } else if wop == 0x18 {
                if pc + 4 <= s.len() {
                    Some((Op::WideDload { index: spec_be16(s, pc + 2) }, 4))
                } else {
                    None
                }
            } else if wop == 0x19 {
                if pc + 4 <= s.len() {
                    Some((Op::WideAload { index: spec_be16(s, pc + 2) }, 4))
                } else {
                    None
                }
            } else if wop == 0x36 {
                if pc + 4 <= s.len() {
                    Some((Op::WideIstore { index: spec_be16(s, pc + 2) }, 4))
                } else {
                    None
                }
            } else if wop == 0x37 {
                if pc + 4 <= s.len() {
                    Some((Op::WideLstore { index: spec_be16(s, pc + 2) }, 4))
                } else {
                    None
                }
            } else if wop == 0x38 {
                if pc + 4 <= s.len() {
                    Some((Op::WideFstore { index: spec_be16(s, pc + 2) }, 4))
                } else {
                    None
                }
            } else if wop == 0x39 {
                if pc + 4 <= s.len() {
                    Some((Op::WideDstore { index: spec_be16(s, pc + 2) }, 4))
                } else {
                    None
                }
            } else if wop == 0x3a {
                if pc + 4 <= s.len() {
                    Some((Op::WideAstore { index: spec_be16(s, pc + 2) }, 4))
                } else {
                    None
                }
            } else if wop == 0xa9 {
                if pc + 4 <= s.len() {
                    Some((Op::WideRet { index: spec_be16(s, pc + 2) }, 4))
                } else {
                    None
                }
            } else if wop == 0x84 {
                if pc + 6 <= s.len() {
                    Some((Op::WideIinc { index: spec_be16(s, pc + 2), constant: spec_be_i16(s, pc + 4) }, 6))
                } else {
                    None
                }
            } else {
                None
            }
        } else {
            None
        }
    } else {
        None
    }
}

// executable decoding of the fixed-width instructions
fn multi_decode(bcode: &[u8], pc: usize) -> (r: Result<(Op, usize), VmError>)
    requires
        pc < bcode@.len(),
        spec_one_byte_op(bcode@[pc as int]) is None,
        bcode@[pc as int] != 0xaa && bcode@[pc as int] != 0xab,
    ensures
        r matches Ok((op, len)) ==> spec_multi_decode(bcode@, pc as int) == Some((op, len as int)) && pc + len <= bcode@.len(),
        r is Err ==> spec_multi_decode(bcode@, pc as int) is None && r == Err::<(Op, usize), VmError>(VmError::MalformedBytecode),
{
    let n = bcode.len();
    let b = bcode[pc];
    if b == 0x10 {
        if n - pc >= 2 {
            Ok((Op::Bipush { byte: bcode[pc + 1] }, 2))
        } else {
            Err(VmError::MalformedBytecode)
        }
    } else if b == 0x11 {
        if n - pc >= 3 {
            Ok((Op::Sipush { bytes: read_be16(bcode, pc + 1) }, 3))
        } else {
            Err(VmError::MalformedBytecode)
        }
    } else if b == 0x12 {
        if n - pc >= 2 {
            Ok((Op::Ldc { index: bcode[pc + 1] }, 2))
        } else {
            Err(VmError::MalformedBytecode)
        }
    } else if b == 0x13 {
        if n - pc >= 3 {
            Ok((Op::LdcW { index: read_be16(bcode, pc + 1) }, 3))
        } else {
            Err(VmError::MalformedBytecode)
        }
    } else if b == 0x14 {
        if n - pc >= 3 {
            Ok((Op::Ldc2W { index: read_be16(bcode, pc + 1) }, 3))
        } else {
            Err(VmError::MalformedBytecode)
        }
    } else if b == 0x15 {
        if n - pc >= 2 {
            Ok((Op::Iload { index: bcode[pc + 1] }, 2))
        } else {
            Err(VmError::MalformedBytecode)
        }
    } else if b == 0x16 {
        if n - pc >= 2 {
            Ok((Op::Lload { index: bcode[pc + 1] }, 2))
        } else {
            Err(VmError::MalformedBytecode)
        }
    } else if b == 0x17 {
        if n - pc >= 2 {
            Ok((Op::Fload { index: bcode[pc + 1] }, 2))
        } else {
            Err(VmError::MalformedBytecode)
        }
    } else if b == 0x18 {
        if n - pc >= 2 {
            Ok((Op::Dload { index: bcode[pc + 1] }, 2))
        } else {
            Err(VmError::MalformedBytecode)
        }
    } else if b == 0x19 {
        if n - pc >= 2 {
            Ok((Op::Aload { index: bcode[pc + 1] }, 2))
        } else {
            Err(VmError::MalformedBytecode)
        }
    } else if b == 0x36 {
        if n - pc >= 2 {
            Ok((Op::Istore { index: bcode[pc + 1] }, 2))
        } else {
            Err(VmError::MalformedBytecode)
        }
    } else if b == 0x37 {
        if n - pc >= 2 {
            Ok((Op::Lstore { index: bcode[pc + 1] }, 2))
        } else {
            Err(VmError::MalformedBytecode)
        }
    } else if b == 0x38 {
        if n - pc >= 2 {
            Ok((Op::Fstore { index: bcode[pc + 1] }, 2))
        } else {
            Err(VmError::MalformedBytecode)
        }
    } else if b == 0x39 {
        if n - pc >= 2 {
            Ok((Op::Dstore { index: bcode[pc + 1] }, 2))
        } else {
            Err(VmError::MalformedBytecode)
        }
    } else if b == 0x3a {
        if n - pc >= 2 {
            Ok((Op::Astore { index: bcode[pc + 1] }, 2))
        } else {
            Err(VmError::MalformedBytecode)
        }
    } else if b == 0x84 {
        if n - pc >= 3 {
            Ok((Op::Iinc { index: bcode[pc + 1], constant: u8_to_i8(bcode[pc + 2]) }, 3))
        } else {
            Err(VmError::MalformedBytecode)
        }
    } else if b == 0x99 {
        if n - pc >= 3 {
            Ok((Op::Ifeq { branch: read_be_i16(bcode, pc + 1) }, 3))
        } else {
            Err(VmError::MalformedBytecode)
        }
    } else if b == 0x9a {
        if n - pc >= 3 {
            Ok((Op::Ifne { branch: read_be_i16(bcode, pc + 1) }, 3))
        } else {
            Err(VmError::MalformedBytecode)
        }
    } else if b == 0x9b {
        if n - pc >= 3 {
            Ok((Op::Iflt { branch: read_be_i16(bcode, pc + 1) }, 3))
        } else {
            Err(VmError::MalformedBytecode)
        }
    } else if b == 0x9c {
        if n - pc >= 3 {
            Ok((Op::Ifge { branch: read_be_i16(bcode, pc + 1) }, 3))
        } else {
            Err(VmError::MalformedBytecode)
        }
    } else if b == 0x9d {
        if n - pc >= 3 {
            Ok((Op::Ifgt { branch: read_be_i16(bcode, pc + 1) }, 3))
        } else {
            Err(VmError::MalformedBytecode)
        }
    } else if b == 0x9e {
        if n - pc >= 3 {
            Ok((Op::Ifle { branch: read_be_i16(bcode, pc + 1) }, 3))
        } else {
            Err(VmError::MalformedBytecode)
        }
    } else if b == 0x9f {
        if n - pc >= 3 {
            Ok((Op::IfIcmpeq { branch: read_be_i16(bcode, pc + 1) }, 3))
        } else {
            Err(VmError::MalformedBytecode)
        }
    } else if b == 0xa0 {
        if n - pc >= 3 {
            Ok((Op::IfIcmpne { branch: read_be_i16(bcode, pc + 1) }, 3))
        } else {
            Err(VmError::MalformedBytecode)
        }
    } else if b == 0xa1 {
        if n - pc >= 3 {
            Ok((Op::IfIcmplt { branch: read_be_i16(bcode, pc + 1) }, 3))
        } else {
            Err(VmError::MalformedBytecode)
        }
    } else if b == 0xa2 {
        if n - pc >= 3 {
            Ok((Op::IfIcmpge { branch: read_be_i16(bcode, pc + 1) }, 3))
        } else {
            Err(VmError::MalformedBytecode)
        }
    } else if b == 0xa3 {
        if n - pc >= 3 {
            Ok((Op::IfIcmpgt { branch: read_be_i16(bcode, pc + 1) }, 3))
        } else {
            Err(VmError::MalformedBytecode)
        }
    } else if b == 0xa4 {
        if n - pc >= 3 {
            Ok((Op::IfIcmple { branch: read_be_i16(bcode, pc + 1) }, 3))
        } else {
            Err(VmError::MalformedBytecode)
        }
    } else if b == 0xa5 {
        if n - pc >= 3 {
            Ok((Op::IfAcmpeq { branch: read_be_i16(bcode, pc + 1) }, 3))
        } else {
            Err(VmError::MalformedBytecode)
        }
    } else if b == 0xa6 {
        if n - pc >= 3 {
            Ok((Op::IfAcmpne { branch: read_be_i16(bcode, pc + 1) }, 3))
        } else {
            Err(VmError::MalformedBytecode)
        }
    } else if b == 0xa7 {
        if n - pc >= 3 {
            Ok((Op::Goto { branch: read_be_i16(bcode, pc + 1) }, 3))
        } else {
            Err(VmError::MalformedBytecode)
        }
    } else if b == 0xa8 {
        if n - pc >= 3 {
            Ok((Op::Jsr { branch: read_be_i16(bcode, pc + 1) }, 3))
        } else {
            Err(VmError::MalformedBytecode)
        }
    } else if b == 0xa9 {
        if n - pc >= 2 {
            Ok((Op::Ret { index: bcode[pc + 1] }, 2))
        } else {
            Err(VmError::MalformedBytecode)
        }
    } else if b == 0xb2 {
        if n - pc >= 3 {
            Ok((Op::Getstatic { index: read_be16(bcode, pc + 1) }, 3))
        } else {
            Err(VmError::MalformedBytecode)
        }
    } else if b == 0xb3 {
        if n - pc >= 3 {
            Ok((Op::Putstatic { index: read_be16(bcode, pc + 1) }, 3))
        } else {
            Err(VmError::MalformedBytecode)
        }
    } else if b == 0xb4 {
        if n - pc >= 3 {
            Ok((Op::Getfield { index: read_be16(bcode, pc + 1) }, 3))
        } else {
            Err(VmError::MalformedBytecode)
        }
    } else if b == 0xb5 {
        if n - pc >= 3 {
            Ok((Op::Putfield { index: read_be16(bcode, pc + 1) }, 3))
        } else {
            Err(VmError::MalformedBytecode)
        }
    } else if b == 0xb6 {
        if n - pc >= 3 {
            Ok((Op::Invokevirtual { index: read_be16(bcode, pc + 1) }, 3))
        } else {
            Err(VmError::MalformedBytecode)
        }
    } else if b == 0xb7 {
        if n - pc >= 3 {
            Ok((Op::Invokespecial { index: read_be16(bcode, pc + 1) }, 3))
        } else {
            Err(VmError::MalformedBytecode)
        }
    } else if b == 0xb8 {
        if n - pc >= 3 {
            Ok((Op::Invokestatic { index: read_be16(bcode, pc + 1) }, 3))
        } else {
            Err(VmError::MalformedBytecode)
        }
    } else if b == 0xbb {
        if n - pc >= 3 {
            Ok((Op::New { index: read_be16(bcode, pc + 1) }, 3))
        } else {
            Err(VmError::MalformedBytecode)
        }
    } else if b == 0xbc {
        if n - pc >= 2 {
            Ok((Op::Newarray { atype: bcode[pc + 1] }, 2))
        } else {
            Err(VmError::MalformedBytecode)
        }
    } else if b == 0xbd {
        if n - pc >= 3 {
            Ok((Op::Anewarray { index: read_be16(bcode, pc + 1) }, 3))
        } else {
            Err(VmError::MalformedBytecode)
        }
    } else if b == 0xc0 {
        if n - pc >= 3 {
            Ok((Op::Checkcast { index: read_be16(bcode, pc + 1) }, 3))
        } else {
            Err(VmError::MalformedBytecode)
        }
    } else if b == 0xc1 {
        if n - pc >= 3 {
            Ok((Op::Instanceof { index: read_be16(bcode, pc + 1) }, 3))
        } else {
            Err(VmError::MalformedBytecode)
        }
    } else if b == 0xc5 {
        if n - pc >= 4 {
            Ok((Op::Multianewarray { index: read_be16(bcode, pc + 1), dimensions: bcode[pc + 3] }, 4))
        } else {
            Err(VmError::MalformedBytecode)
        }
    } else if b == 0xc6 {
        if n - pc >= 3 {
            Ok((Op::Ifnull { branch: read_be_i16(bcode, pc + 1) }, 3))
        } else {
            Err(VmError::MalformedBytecode)
        }
    } else if b == 0xc7 {
        if n - pc >= 3 {
            Ok((Op::Ifnonnull { branch: read_be_i16(bcode, pc + 1) }, 3))
        } else {
            Err(VmError::MalformedBytecode)
        }
    } else if b == 0xc8 {
        if n - pc >= 5 {
            Ok((Op::GotoW { branch: read_be_i32(bcode, pc + 1) }, 5))
        } else {
            Err(VmError::MalformedBytecode)
        }
    } else if b == 0xc9 {
        if n - pc >= 5 {
            Ok((Op::JsrW { branch: read_be_i32(bcode, pc + 1) }, 5))
        } else {
            Err(VmError::MalformedBytecode)
        }
    } else if b == 0xb9 {
        if n - pc >= 5 && bcode[pc + 4] == 0 {
            Ok((Op::Invokeinterface { index: read_be16(bcode, pc + 1), count: bcode[pc + 3] }, 5))
        } else {
            Err(VmError::MalformedBytecode)
        }
    } else if b == 0xba {
        if n - pc >= 5 && bcode[pc + 3] == 0 && bcode[pc + 4] == 0 {
            Ok((Op::Invokedynamic { index: read_be16(bcode, pc + 1) }, 5))
        } else {
            Err(VmError::MalformedBytecode)
        }
    } else if b == 0xc4 {
        if n - pc < 2 {
            return Err(VmError::MalformedBytecode);
        }
        let wop = bcode[pc + 1];
        if wop == 0x15 {
            if n - pc >= 4 {
                Ok((Op::WideIload { index: read_be16(bcode, pc + 2) }, 4))
            } else {
                Err(VmError::MalformedBytecode)
            }
        } else if wop == 0x16 {
            if n - pc >= 4 {
                Ok((Op::WideLload { index: read_be16(bcode, pc + 2) }, 4))
            } else {
                Err(VmError::MalformedBytecode)
            }
        } else if wop == 0x17 {
            if n - pc >= 4 {
                Ok((Op::WideFload { index: read_be16(bcode, pc + 2) }, 4))
            } else {
                Err(VmError::MalformedBytecode)
            }
        } else if wop == 0x18 {
            if n - pc >= 4 {
                Ok((Op::WideDload { index: read_be16(bcode, pc + 2) }, 4))
            } else {
                Err(VmError::MalformedBytecode)
            }
        } else if wop == 0x19 {
            if n - pc >= 4 {
                Ok((Op::WideAload { index: read_be16(bcode, pc + 2) }, 4))
            } else {
                Err(VmError::MalformedBytecode)
            }
        } else if wop == 0x36 {
            if n - pc >= 4 {
                Ok((Op::WideIstore { index: read_be16(bcode, pc + 2) }, 4))
            } else {
                Err(VmError::MalformedBytecode)
            }
        } else if wop == 0x37 {
            if n - pc >= 4 {
                Ok((Op::WideLstore { index: read_be16(bcode, pc + 2) }, 4))
            } else {
                Err(VmError::MalformedBytecode)
            }
        } else if wop == 0x38 {
            if n - pc >= 4 {
                Ok((Op::WideFstore { index: read_be16(bcode, pc + 2) }, 4))
            } else {
                Err(VmError::MalformedBytecode)
            }
        } else if wop == 0x39 {
            if n - pc >= 4 {
                Ok((Op::WideDstore { index: read_be16(bcode, pc + 2) }, 4))
            } else {
                Err(VmError::MalformedBytecode)
            }
        } else if wop == 0x3a {
            if n - pc >= 4 {
                Ok((Op::WideAstore { index: read_be16(bcode, pc + 2) }, 4))
            } else {
                Err(VmError::MalformedBytecode)
            }
        } else if wop == 0xa9 {
            if n - pc >= 4 {
                Ok((Op::WideRet { index: read_be16(bcode, pc + 2) }, 4))
            } else {
                Err(VmError::MalformedBytecode)
            }
        } else if wop == 0x84 {
            if n - pc >= 6 {
                Ok((Op::WideIinc { index: read_be16(bcode, pc + 2), constant: read_be_i16(bcode, pc + 4) }, 6))
            } else {
                Err(VmError::MalformedBytecode)
            }
        } else {
            Err(VmError::MalformedBytecode)
        }
    } else {
        Err(VmError::MalformedBytecode)
    }
}

/// Bytes of padding between a switch opcode at `pc` and its first operand:
/// operands start at the next four-byte boundary of the code array.
pub open spec fn switch_pad(pc: int) -> int {
    3 - (pc % 4)
}

/// Whether a `tableswitch` instruction at `pc` fits in `s`: the 12-byte
/// header after the padding, bounds with `low <= high`, and one 4-byte
/// offset for each of the `high - low + 1` table entries.
pub open spec fn tableswitch_can(s: Seq<u8>, pc: int) -> bool {
    let p = pc + 1 + switch_pad(pc);
    &&& p + 12 <= s.len()
    &&& spec_be_i32(s, p + 4) <= spec_be_i32(s, p + 8)
    &&& p + 12 + 4 * (spec_be_i32(s, p + 8) - spec_be_i32(s, p + 4) + 1) <= s.len()
}

/// The instruction and length a `tableswitch` at `pc` decodes to.
pub open spec fn tableswitch_post(s: Seq<u8>, pc: int, op: Op, len: int) -> bool {
    let p = pc + 1 + switch_pad(pc);
    let lo = spec_be_i32(s, p + 4);
    let hi = spec_be_i32(s, p + 8);
    &&& op matches Op::Tableswitch { default, low, high, jump_offsets } && default == spec_be_i32(
        s,
        p,
    ) && low == lo && high == hi && jump_offsets@.len() == hi - lo + 1 && (forall|t: int|
        0 <= t < jump_offsets@.len() ==> jump_offsets@[t] == spec_be_i32(s, p + 12 + 4 * t))
    &&& len == 1 + switch_pad(pc) + 12 + 4 * (hi - lo + 1)
}

/// Whether a `lookupswitch` instruction at `pc` fits in `s`: the 8-byte
/// header after the padding, a non-negative pair count, and one 8-byte
/// pair for each entry.
pub open spec fn lookupswitch_can(s: Seq<u8>, pc: int) -> bool {
    let p = pc + 1 + switch_pad(pc);
    &&& p + 8 <= s.len()
    &&& spec_be_i32(s, p + 4) >= 0
    &&& p + 8 + 8 * spec_be_i32(s, p + 4) <= s.len()
}

/// The instruction and length a `lookupswitch` at `pc` decodes to.
pub open spec fn lookupswitch_post(s: Seq<u8>, pc: int, op: Op, len: int) -> bool {
    let p = pc + 1 + switch_pad(pc);
    let np = spec_be_i32(s, p + 4);
    &&& op matches Op::Lookupswitch { default, npairs, match_offsets } && default == spec_be_i32(
        s,
        p,
    ) && npairs == np && match_offsets@.len() == np && (forall|t: int|
        0 <= t < match_offsets@.len() ==> match_offsets@[t] == (
        spec_be_i32(s, p + 8 + 8 * t),
        spec_be_i32(s, p + 8 + 8 * t + 4),
        ))
    &&& len == 1 + switch_pad(pc) + 8 + 8 * np
}

fn decode_tableswitch(bcode: &[u8], pc: usize) -> (r: Result<(Op, usize), VmError>)
    requires
        pc < bcode@.len(),
    ensures
        r matches Ok((op, len)) ==> tableswitch_can(bcode@, pc as int) && tableswitch_post(
            bcode@,
            pc as int,
            op,
            len as int,
        ) && 1 <= len && pc + len <= bcode@.len(),
        r is Err ==> !tableswitch_can(bcode@, pc as int) && r == Err::<(Op, usize),
            VmError,
        >(VmError::MalformedBytecode),
{
    let n = bcode.len();
    let pad = 3 - (pc % 4);
    if n - pc < 13 + pad {
        return Err(VmError::MalformedBytecode);
    }
    let p = pc + 1 + pad;
    let default = read_be_i32(bcode, p);
    let low = read_be_i32(bcode, p + 4);
    let high = read_be_i32(bcode, p + 8);
    if low > high {
        return Err(VmError::MalformedBytecode);
    }
    let count = (high as i64 - low as i64 + 1) as u64;
    let avail = (n - (p + 12)) as u64;
    if count * 4 > avail {
        return Err(VmError::MalformedBytecode);
    }
    let cnt = count as usize;
    let mut jump_offsets: Vec<i32> = Vec::new();
    let mut k: usize = 0;
    while k < cnt
        invariant
            k <= cnt,
            n == bcode@.len(),
            p + 12 + 4 * cnt <= n,
            jump_offsets@.len() == k,
            forall|t: int| 0 <= t < k ==> jump_offsets@[t] == spec_be_i32(bcode@, p + 12 + 4 * t),
        decreases cnt - k,
    {
        let off = read_be_i32(bcode, p + 12 + 4 * k);
        jump_offsets.push(off);
        k = k + 1;
    }
    Ok((Op::Tableswitch { default, low, high, jump_offsets }, 13 + pad + 4 * cnt))
}

fn decode_lookupswitch(bcode: &[u8], pc: usize) -> (r: Result<(Op, usize), VmError>)
    requires
        pc < bcode@.len(),
    ensures
        r matches Ok((op, len)) ==> lookupswitch_can(bcode@, pc as int) && lookupswitch_post(
            bcode@,
            pc as int,
            op,
            len as int,
        ) && 1 <= len && pc + len <= bcode@.len(),
        r is Err ==> !lookupswitch_can(bcode@, pc as int) && r == Err::<(Op, usize),
            VmError,
        >(VmError::MalformedBytecode),
{
    let n = bcode.len();
    let pad = 3 - (pc % 4);
    if n - pc < 9 + pad {
        return Err(VmError::MalformedBytecode);
    }
    let p = pc + 1 + pad;
    let default = read_be_i32(bcode, p);
    let npairs = read_be_i32(bcode, p + 4);
    if npairs < 0 {
        return Err(VmError::MalformedBytecode);
    }
    let count = npairs as u64;
    let avail = (n - (p + 8)) as u64;
    if count * 8 > avail {
        return Err(VmError::MalformedBytecode);
    }
    let cnt = count as usize;
    let mut match_offsets: Vec<(i32, i32)> = Vec::new();
    let mut k: usize = 0;
    while k < cnt
        invariant
            k <= cnt,
            n == bcode@.len(),
            p + 8 + 8 * cnt <= n,
            match_offsets@.len() == k,
            forall|t: int| 0 <= t < k ==> match_offsets@[t] == (
            spec_be_i32(bcode@, p + 8 + 8 * t),
            spec_be_i32(bcode@, p + 8 + 8 * t + 4),
            ),
        decreases cnt - k,
    {
        let key = read_be_i32(bcode, p + 8 + 8 * k);
        let off = read_be_i32(bcode, p + 8 + 8 * k + 4);
        match_offsets.push((key, off));
        k = k + 1;
    }
    Ok((Op::Lookupswitch { default, npairs, match_offsets }, 9 + pad + 8 * cnt))
}

/// Decoding of every instruction but the two switches, at position `pc`:
/// the one-byte table first, then the fixed-width forms.
pub open spec fn spec_simple_decode(s: Seq<u8>, pc: int) -> Option<(Op, int)> {
    if 0 <= pc < s.len() {
        match spec_one_byte_op(s[pc]) {
            Some(op) => Some((op, 1)),
            None => spec_multi_decode(s, pc),
        }
    } else {
        None
    }
}

/// Whether one instruction decodes at position `pc` of `s`.
pub open spec fn spec_can_decode(s: Seq<u8>, pc: int) -> bool {
    &&& 0 <= pc < s.len()
    &&& if s[pc] == 0xaa {
        tableswitch_can(s, pc)
    } else if s[pc] == 0xab {
        lookupswitch_can(s, pc)
    } else {
        spec_simple_decode(s, pc) is Some
    }
}

/// The instruction and consumed length decoded at position `pc` of `s`.
pub open spec fn op_decode_post(s: Seq<u8>, pc: int, op: Op, len: int) -> bool {
    &&& 0 <= pc < s.len()
    &&& if s[pc] == 0xaa {
        tableswitch_post(s, pc, op, len)
    } else if s[pc] == 0xab {
        lookupswitch_post(s, pc, op, len)
    } else {
        spec_simple_decode(s, pc) == Some((op, len))
    }
}

/// Decode the instruction at `bcode[pc]`, returning it and the number of
/// bytes it occupies. `pc` itself positions the switch padding. Fails with
/// `VmError::MalformedBytecode` exactly when no instruction decodes there:
/// `pc` out of range, an unknown or reserved opcode, or a truncated
/// instruction.
pub fn next_op(bcode: &[u8], pc: usize) -> (r: Result<(Op, usize), VmError>)
    ensures
        r matches Ok((op, len)) ==> spec_can_decode(bcode@, pc as int) && op_decode_post(
            bcode@,
            pc as int,
            op,
            len as int,
        ) && 1 <= len && pc + len <= bcode@.len(),
        r is Err ==> !spec_can_decode(bcode@, pc as int) && r == Err::<(Op, usize),
            VmError,
        >(VmError::MalformedBytecode),
{
    let n = bcode.len();
    if pc >= n {
        return Err(VmError::MalformedBytecode);
    }
    let b = bcode[pc];
    match one_byte_op(b) {
        Some(op) => Ok((op, 1)),
        None => {
            if b == 0xaa {
                decode_tableswitch(bcode, pc)
            } else if b == 0xab {
                decode_lookupswitch(bcode, pc)
            } else {
                multi_decode(bcode, pc)
            }
        },
    }
}

/// Every opcode byte that denotes a one-byte instruction decodes, by
/// itself, to that instruction with length 1.
pub proof fn lemma_one_byte_decodes(b: u8)
    ensures
        spec_one_byte_op(b) matches Some(op) ==> spec_can_decode(seq![b], 0) && op_decode_post(
            seq![b],
            0,
            op,
            1,
        ),
{
    match spec_one_byte_op(b) {
        Some(op) => {
            assert(seq![b][0] == b);
            assert(spec_simple_decode(seq![b], 0) == Some((op, 1int)));
        },
        None => {},
    }
}

} // verus!
