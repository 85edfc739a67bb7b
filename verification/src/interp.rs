//! The class registry, thread frame stack, and interpreter loop.
//!
//! A thread owns one linear buffer of tagged values and a stack of frame
//! descriptors. A frame reserves `max_locals + max_stack` slots of the
//! buffer: locals at `[bp, bp + local)`, the operand region at
//! `[bp + local, bp + local + stack)`, with `sp` operand slots in use. The
//! buffer always ends exactly at the top frame's reservation, so popping a
//! frame returns the buffer to the length it had when that frame was
//! pushed. A long or double occupies two slots: its value in the lower
//! slot, an `Invalid` marker above it.
//!
//! The registry maps internal class names to class records and their
//! runtime state. Loading a name again registers a new record; lookups
//! return the newest, and frames that still reference the older record keep
//! executing it. A class is initialized at its first use by `getstatic`,
//! `putstatic` or `invokestatic`: every static field is set to its
//! `ConstantValue` initializer or to the zero value of its type. (Running
//! `<clinit>` is outside the executable core.)
//!
//! `run` drives the fetch-decode-execute loop under a caller-supplied tick
//! budget and reports `VmError::Cancelled` when the budget is exhausted.

use vstd::prelude::*;

use crate::class::spec_zero_value;
use crate::class::Code;
use crate::class::ExceptionTableEntry;
use crate::class::FieldInfoSpec;
use crate::class::JClass;
use crate::class::JClassSpec;
use crate::class::JValue;
use crate::class::ACC_STATIC;
use crate::err::VmError;
use crate::desc::JComponentType;
use crate::op::next_op;
use crate::op::spec_simple_decode;
use crate::op::u16_to_i16;
use crate::op::u32_to_i32;
use crate::op::u64_to_i64;
use crate::op::u8_to_i8;
use crate::op::Op;
use crate::pool::ConstInfo;

verus! {

/// Capacity of a thread's value buffer, in slots.
pub const MAX_STACK: usize = 1024;

/// A frame descriptor: the base of its buffer reservation, its local and
/// operand slot counts, the number of operand slots in use, the program
/// counter, and the handles of its class and method in the registry.
#[derive(Debug, Clone, Copy, PartialEq, Eq, Structural)]
pub struct JStackFrame {
    pub bp: usize,
    pub local: usize,
    pub stack: usize,
    pub sp: usize,
    pub pc: usize,
    pub class: usize,
    pub method: usize,
}

/// A single thread's execution state.
#[derive(Debug)]
pub struct JThreadContext {
    pub stack: Vec<JValue>,
    pub frames: Vec<JStackFrame>,
}

/// Per-class runtime state: the initialization flag and the current values
/// of the static fields, keyed by field name.
#[derive(Debug)]
pub struct JClassRuntimeInfo {
    pub initialized: bool,
    pub static_fields: Vec<(String, JValue)>,
}

/// The virtual machine: loaded classes, their runtime state (one entry per
/// loaded class, index-aligned), and its threads.
#[derive(Debug)]
pub struct JVM {
    pub classes: Vec<JClass>,
    pub class_rt: Vec<JClassRuntimeInfo>,
    pub threads: Vec<JThreadContext>,
}

/// View of the class list as class records.
pub open spec fn classes_view(v: Seq<JClass>) -> Seq<JClassSpec> {
    v.map_values(|c: JClass| c@)
}

/// The slot one past a frame's reservation.
pub open spec fn frame_end(f: JStackFrame) -> int {
    f.bp + f.local + f.stack
}

/// A frame's handles point at a method with code, whose declared slot
/// counts the frame carries, and its operand count is within bounds.
pub open spec fn frame_valid(f: JStackFrame, classes: Seq<JClassSpec>) -> bool {
    &&& f.class < classes.len()
    &&& f.method < classes[f.class as int].methods.len()
    &&& classes[f.class as int].methods[f.method as int].code matches Some(code) && f.local
        == code.max_locals && f.stack == code.max_stack
    &&& f.sp <= f.stack
}

/// Frames partition the value buffer: the first starts at slot 0, each
/// next frame starts where the previous reservation ends, and the buffer
/// ends exactly at the top frame's reservation.
pub open spec fn frames_chained(stack: Seq<JValue>, frames: Seq<JStackFrame>) -> bool {
    &&& (frames.len() == 0 ==> stack.len() == 0)
    &&& (frames.len() > 0 ==> frames[0].bp == 0 && stack.len() == frame_end(
        frames[frames.len() - 1],
    ))
    &&& forall|i: int|
        0 <= i < frames.len() - 1 ==> (#[trigger] frames[i + 1]).bp == frame_end(frames[i])
}

/// Well-formedness of a thread against the class registry.
pub open spec fn thread_wf(stack: Seq<JValue>, frames: Seq<JStackFrame>, classes: Seq<JClassSpec>) -> bool {
    &&& stack.len() <= MAX_STACK
    &&& frames_chained(stack, frames)
    &&& forall|i: int| 0 <= i < frames.len() ==> frame_valid(#[trigger] frames[i], classes)
}

impl JThreadContext {
    pub open spec fn wf(self, classes: Seq<JClassSpec>) -> bool {
        thread_wf(self.stack@, self.frames@, classes)
    }

    pub fn new() -> (r: Self)
        ensures
            r.stack@.len() == 0,
            r.frames@.len() == 0,
    {
        JThreadContext { stack: Vec::new(), frames: Vec::new() }
    }
}

impl Default for JThreadContext {
    /// An empty thread: no values, no frames.
    fn default() -> (r: Self)
        ensures
            r.stack@.len() == 0,
            r.frames@.len() == 0,
    {
        JThreadContext::new()
    }
}

impl JThreadContext {

    /// Reserve a frame for the given method on top of the value buffer,
    /// with all slots set to `Invalid`. Fails with `VmError::NoCode` when
    /// the method has no code attribute, and with `VmError::StackOverflow`
    /// exactly when the buffer cannot hold the frame's
    /// `max_locals + max_stack` slots within its capacity.
    pub fn new_frame(&mut self, classes: &Vec<JClass>, class_idx: usize, method_idx: usize) -> (r:
        Result<(), VmError>)
        requires
            old(self).wf(classes_view(classes@)),
            class_idx < classes@.len(),
            method_idx < classes@[class_idx as int].methods@.len(),
        ensures
            final(self).wf(classes_view(classes@)),
            r matches Ok(u) ==> {
                let code = classes_view(classes@)[class_idx as int].methods[
                    method_idx as int
                ].code.unwrap();
                let f = (JStackFrame {
                    bp: old(self).stack@.len() as usize,
                    local: code.max_locals as usize,
                    stack: code.max_stack as usize,
                    sp: 0,
                    pc: 0,
                    class: class_idx,
                    method: method_idx,
                });
                &&& classes_view(classes@)[class_idx as int].methods[method_idx as int].code
                    is Some
                &&& old(self).stack@.len() + code.max_locals + code.max_stack <= MAX_STACK
                &&& final(self).frames@ == old(self).frames@.push(f)
                &&& final(self).stack@ == old(self).stack@ + Seq::new(
                    (code.max_locals + code.max_stack) as nat,
                    |i: int| JValue::Invalid,
                )
            },
            r is Err ==> *final(self) == *old(self),
            r is Ok <==> (classes_view(classes@)[class_idx as int].methods[
                method_idx as int
            ].code matches Some(code) && old(self).stack@.len() + code.max_locals + code.max_stack
                <= MAX_STACK),
            r == Err::<(), VmError>(VmError::NoCode) <==> !(classes_view(classes@)[
                class_idx as int
            ].methods[method_idx as int].code is Some),
            r == Err::<(), VmError>(VmError::StackOverflow) <==> (classes_view(classes@)[
                class_idx as int
            ].methods[method_idx as int].code matches Some(code) && old(self).stack@.len()
                + code.max_locals + code.max_stack > MAX_STACK),
    {
        let m = &classes[class_idx].methods[method_idx];
        let code = match &m.code {
            Some(c) => c,
            None => {
                return Err(VmError::NoCode);
            },
        };
        let local = code.max_locals as usize;
        let stack_slots = code.max_stack as usize;
        let bp = self.stack.len();
        if MAX_STACK - bp < local + stack_slots {
            return Err(VmError::StackOverflow);
        }
        let f = JStackFrame {
            bp,
            local,
            stack: stack_slots,
            sp: 0,
            pc: 0,
            class: class_idx,
            method: method_idx,
        };
        let ghost old_stack = self.stack@;
        let total = local + stack_slots;
        let mut k: usize = 0;
        while k < total
            invariant
                k <= total,
                self.stack@ == old_stack + Seq::new(k as nat, |i: int| JValue::Invalid),
                self.frames@ == old(self).frames@,
            decreases total - k,
        {
            self.stack.push(JValue::Invalid);
            proof {
                assert(self.stack@ =~= old_stack + Seq::new((k + 1) as nat, |i: int| JValue::Invalid));
            }
            k = k + 1;
        }
        self.frames.push(f);
        proof {
            assert(self.wf(classes_view(classes@))) by {
                let fr = self.frames@;
                assert(forall|i: int|
                    0 <= i < fr.len() - 1 ==> (#[trigger] fr[i + 1]).bp == frame_end(fr[i]));
                assert(forall|i: int| 0 <= i < fr.len() ==> frame_valid(#[trigger] fr[i], classes_view(classes@)));
            }
        }
        Ok(())
    }

    /// Pop the top frame, releasing its buffer reservation: the buffer
    /// shrinks back to exactly the length it had when the frame was
    /// pushed, its base pointer.
    pub fn pop_frame(&mut self) -> (f: JStackFrame)
        requires
            old(self).frames@.len() > 0,
            old(self).stack@.len() >= frame_end(old(self).frames@.last()),
        ensures
            f == old(self).frames@.last(),
            final(self).frames@ == old(self).frames@.drop_last(),
            final(self).stack@ == old(self).stack@.take(f.bp as int),
            final(self).stack@.len() == f.bp,
    {
        let f = self.frames.pop().unwrap();
        self.stack.truncate(f.bp);
        f
    }
}

/// Push one operand slot onto a frame whose reservation ends the buffer.
/// Fails with `VmError::IndexOutOfRange` exactly when the operand region
/// is full.
pub fn push_operand(stack: &mut Vec<JValue>, f: &mut JStackFrame, v: JValue) -> (r: Result<
    (),
    VmError,
>)
    requires
        frame_end(*old(f)) <= old(stack)@.len(),
        old(f).sp <= old(f).stack,
    ensures
        final(stack)@.len() == old(stack)@.len(),
        r matches Ok(u) ==> old(f).sp < old(f).stack && *final(f) == (JStackFrame {
            sp: (old(f).sp + 1) as usize,
            ..*old(f)
        }) && final(stack)@ == old(stack)@.update(old(f).bp + old(f).local + old(f).sp, v),
        r is Err ==> old(f).sp == old(f).stack && *final(f) == *old(f) && final(stack)@ == old(stack)@ && r == Err::<(), VmError>(VmError::IndexOutOfRange),
{
    if f.sp == f.stack {
        return Err(VmError::IndexOutOfRange);
    }
    // the buffer length, a machine word, bounds the slot index
    let _buf_len: usize = stack.len();
    let idx = f.bp + f.local + f.sp;
    stack[idx] = v;
    f.sp = f.sp + 1;
    Ok(())
}

/// Pop one operand slot. Fails with `VmError::IndexOutOfRange` exactly
/// when the operand region is empty.
pub fn pop_operand(stack: &Vec<JValue>, f: &mut JStackFrame) -> (r: Result<JValue, VmError>)
    requires
        frame_end(*old(f)) <= stack@.len(),
        old(f).sp <= old(f).stack,
    ensures
        r matches Ok(v) ==> old(f).sp > 0 && v == stack@[old(f).bp + old(f).local + old(f).sp - 1]
            && *final(f) == (JStackFrame { sp: (old(f).sp - 1) as usize, ..*old(f) }),
        r is Err ==> old(f).sp == 0 && *final(f) == *old(f) && r == Err::<JValue, VmError>(
            VmError::IndexOutOfRange,
        ),
{
    if f.sp == 0 {
        return Err(VmError::IndexOutOfRange);
    }
    // the buffer length, a machine word, bounds the slot index
    let _buf_len: usize = stack.len();
    f.sp = f.sp - 1;
    let idx = f.bp + f.local + f.sp;
    Ok(stack[idx])
}

/// Read local slot `idx`. Fails with `VmError::IndexOutOfRange` exactly
/// when the slot index is outside the frame's locals.
pub fn get_local(stack: &Vec<JValue>, f: &JStackFrame, idx: usize) -> (r: Result<JValue, VmError>)
    requires
        frame_end(*f) <= stack@.len(),
    ensures
        r matches Ok(v) ==> idx < f.local && v == stack@[f.bp + idx],
        r is Err ==> idx >= f.local && r == Err::<JValue, VmError>(VmError::IndexOutOfRange),
{
    if idx >= f.local {
        return Err(VmError::IndexOutOfRange);
    }
    // the buffer length, a machine word, bounds the slot index
    let _buf_len: usize = stack.len();
    Ok(stack[f.bp + idx])
}

/// Write local slot `idx`. Fails with `VmError::IndexOutOfRange` exactly
/// when the slot index is outside the frame's locals.
pub fn set_local(stack: &mut Vec<JValue>, f: &JStackFrame, idx: usize, v: JValue) -> (r: Result<
    (),
    VmError,
>)
    requires
        frame_end(*f) <= old(stack)@.len(),
    ensures
        final(stack)@.len() == old(stack)@.len(),
        r matches Ok(u) ==> idx < f.local && final(stack)@ == old(stack)@.update(f.bp + idx, v),
        r is Err ==> idx >= f.local && final(stack)@ == old(stack)@ && r == Err::<(), VmError>(
            VmError::IndexOutOfRange,
        ),
{
    if idx >= f.local {
        return Err(VmError::IndexOutOfRange);
    }
    // the buffer length, a machine word, bounds the slot index
    let _buf_len: usize = stack.len();
    stack[f.bp + idx] = v;
    Ok(())
}


/// Pop an `Int` operand; `VmError::InvalidOperand` when the top slot holds
/// a different kind of value.
pub fn pop_int(stack: &Vec<JValue>, f: &mut JStackFrame) -> (r: Result<i32, VmError>)
    requires
        frame_end(*old(f)) <= stack@.len(),
        old(f).sp <= old(f).stack,
    ensures
        r matches Ok(v) ==> old(f).sp > 0 && stack@[old(f).bp + old(f).local + old(f).sp - 1]
            == JValue::Int(v) && *final(f) == (JStackFrame {
            sp: (old(f).sp - 1) as usize,
            ..*old(f)
        }),
        r is Ok <==> old(f).sp > 0 && stack@[old(f).bp + old(f).local + old(f).sp - 1] is Int,
        r is Err ==> *final(f) == *old(f) && r == Err::<i32, VmError>(
            if old(f).sp == 0 {
                VmError::IndexOutOfRange
            } else {
                VmError::InvalidOperand
            },
        ),
{
    let v = pop_operand(stack, f)?;
    match v {
        JValue::Int(x) => Ok(x),
        _ => {
            f.sp = f.sp + 1;
            Err(VmError::InvalidOperand)
        },
    }
}

/// Pop a two-slot `Long` operand: the `Invalid` upper slot, then the value.
pub fn pop_long(stack: &Vec<JValue>, f: &mut JStackFrame) -> (r: Result<i64, VmError>)
    requires
        frame_end(*old(f)) <= stack@.len(),
        old(f).sp <= old(f).stack,
    ensures
        r matches Ok(v) ==> old(f).sp >= 2 && stack@[old(f).bp + old(f).local + old(f).sp - 2]
            == JValue::Long(v) && *final(f) == (JStackFrame {
            sp: (old(f).sp - 2) as usize,
            ..*old(f)
        }),
        r is Ok <==> old(f).sp >= 2 && stack@[old(f).bp + old(f).local + old(f).sp - 1]
            == JValue::Invalid && stack@[old(f).bp + old(f).local + old(f).sp - 2] is Long,
        r is Err ==> *final(f) == *old(f) && r == Err::<i64, VmError>(
            if old(f).sp == 0 {
                VmError::IndexOutOfRange
            } else {
                VmError::InvalidOperand
            },
        ),
{
    let pad = pop_operand(stack, f);
    match pad {
        Ok(JValue::Invalid) => {
            let v = pop_operand(stack, f);
            match v {
                Ok(JValue::Long(x)) => Ok(x),
                Ok(_) => {
                    f.sp = f.sp + 2;
                    Err(VmError::InvalidOperand)
                },
                Err(_) => {
                    f.sp = f.sp + 1;
                    Err(VmError::InvalidOperand)
                },
            }
        },
        Ok(_) => {
            f.sp = f.sp + 1;
            Err(VmError::InvalidOperand)
        },
        Err(e) => Err(e),
    }
}

/// Push a two-slot value: the value, then an `Invalid` marker above it.
/// Succeeds exactly when two operand slots are free.
pub fn push_wide(stack: &mut Vec<JValue>, f: &mut JStackFrame, v: JValue) -> (r: Result<
    (),
    VmError,
>)
    requires
        frame_end(*old(f)) <= old(stack)@.len(),
        old(f).sp <= old(f).stack,
    ensures
        final(stack)@.len() == old(stack)@.len(),
        final(f).sp <= final(f).stack,
        frame_end(*final(f)) == frame_end(*old(f)),
        r is Ok <==> old(f).sp + 2 <= old(f).stack,
        r matches Ok(u) ==> *final(f) == (JStackFrame { sp: (old(f).sp + 2) as usize, ..*old(f) })
            && final(stack)@ == old(stack)@.update(old(f).bp + old(f).local + old(f).sp, v).update(
            old(f).bp + old(f).local + old(f).sp + 1,
            JValue::Invalid,
        ),
        r is Err ==> *final(f) == *old(f) && final(stack)@ == old(stack)@ && r == Err::<
            (),
            VmError,
        >(VmError::IndexOutOfRange),
{
    if f.stack - f.sp < 2 {
        return Err(VmError::IndexOutOfRange);
    }
    push_operand(stack, f, v)?;
    match push_operand(stack, f, JValue::Invalid) {
        Ok(u) => Ok(u),
        Err(e) => Err(e),
    }
}

/// Push a value onto the operand region, one slot for a single-slot value
/// and two for a long or double. Succeeds exactly when that many slots are
/// free.
pub fn push_value(stack: &mut Vec<JValue>, f: &mut JStackFrame, v: JValue) -> (r: Result<
    (),
    VmError,
>)
    requires
        frame_end(*old(f)) <= old(stack)@.len(),
        old(f).sp <= old(f).stack,
    ensures
        final(stack)@.len() == old(stack)@.len(),
        final(f).sp <= final(f).stack,
        frame_end(*final(f)) == frame_end(*old(f)),
        r is Ok <==> old(f).sp + (if v.spec_is_wide() {
            2int
        } else {
            1int
        }) <= old(f).stack,
        r matches Ok(u) ==> (if v.spec_is_wide() {
            *final(f) == (JStackFrame { sp: (old(f).sp + 2) as usize, ..*old(f) }) && final(stack)@
                == old(stack)@.update(old(f).bp + old(f).local + old(f).sp, v).update(
                old(f).bp + old(f).local + old(f).sp + 1,
                JValue::Invalid,
            )
        } else {
            *final(f) == (JStackFrame { sp: (old(f).sp + 1) as usize, ..*old(f) }) && final(stack)@
                == old(stack)@.update(old(f).bp + old(f).local + old(f).sp, v)
        }),
        r is Err ==> *final(f) == *old(f) && final(stack)@ == old(stack)@ && r == Err::<
            (),
            VmError,
        >(VmError::IndexOutOfRange),
{
    if v.is_wide() {
        push_wide(stack, f, v)
    } else {
        push_operand(stack, f, v)
    }
}

/// Whether the operand region's top holds a value that `pop_value` accepts:
/// a two-slot long or double under its `Invalid` marker, or a single-slot
/// value.
pub open spec fn top_value_ok(stack: Seq<JValue>, f: JStackFrame) -> bool {
    let o = f.bp + f.local;
    &&& f.sp > 0
    &&& (if stack[o + f.sp - 1] == JValue::Invalid {
        f.sp >= 2 && stack[o + f.sp - 2].spec_is_wide()
    } else {
        !stack[o + f.sp - 1].spec_is_wide()
    })
}

/// Pop a value from the operand region, tag-driven: an `Invalid` top slot
/// is the upper half of a two-slot value, whose lower slot must hold a
/// long or double. Succeeds exactly when the top is well-formed.
pub fn pop_value(stack: &Vec<JValue>, f: &mut JStackFrame) -> (r: Result<JValue, VmError>)
    requires
        frame_end(*old(f)) <= stack@.len(),
        old(f).sp <= old(f).stack,
    ensures
        r is Ok <==> top_value_ok(stack@, *old(f)),
        r matches Ok(v) ==> (if stack@[old(f).bp + old(f).local + old(f).sp - 1]
            == JValue::Invalid {
            v == stack@[old(f).bp + old(f).local + old(f).sp - 2] && *final(f) == (JStackFrame {
                sp: (old(f).sp - 2) as usize,
                ..*old(f)
            })
        } else {
            v == stack@[old(f).bp + old(f).local + old(f).sp - 1] && *final(f) == (JStackFrame {
                sp: (old(f).sp - 1) as usize,
                ..*old(f)
            })
        }),
        r is Err ==> *final(f) == *old(f) && (r == Err::<JValue, VmError>(VmError::IndexOutOfRange)
            || r == Err::<JValue, VmError>(VmError::InvalidOperand)),
{
    let v = pop_operand(stack, f)?;
    match v {
        JValue::Invalid => {
            let w = pop_operand(stack, f);
            match w {
                Ok(JValue::Long(x)) => Ok(JValue::Long(x)),
                Ok(JValue::DoubleBits(x)) => Ok(JValue::DoubleBits(x)),
                Ok(_) => {
                    f.sp = f.sp + 2;
                    Err(VmError::InvalidOperand)
                },
                Err(_) => {
                    f.sp = f.sp + 1;
                    Err(VmError::IndexOutOfRange)
                },
            }
        },
        _ => {
            if v.is_wide() {
                f.sp = f.sp + 1;
                Err(VmError::InvalidOperand)
            } else {
                Ok(v)
            }
        },
    }
}

/// View of a static-field table with field names as character sequences.
pub open spec fn statics_view(s: Seq<(String, JValue)>) -> Seq<(Seq<char>, JValue)> {
    s.map_values(|p: (String, JValue)| (p.0@, p.1))
}

/// The value a static field holds right after initialization: its
/// `ConstantValue` initializer if present, else the zero value of its type.
pub open spec fn spec_static_value(f: FieldInfoSpec) -> JValue {
    match f.constant_value {
        Some(v) => v,
        None => spec_zero_value(f.jtype),
    }
}

/// The static-field table of a freshly initialized class: one entry per
/// static field, in declaration order.
pub open spec fn spec_init_statics(fields: Seq<FieldInfoSpec>) -> Seq<(Seq<char>, JValue)>
    decreases fields.len(),
{
    if fields.len() == 0 {
        Seq::empty()
    } else {
        let rest = spec_init_statics(fields.drop_last());
        let f = fields.last();
        if f.access_flags & ACC_STATIC != 0 {
            rest.push((f.name, spec_static_value(f)))
        } else {
            rest
        }
    }
}

/// The value under `name` in a static-field table; the last entry wins.
pub open spec fn spec_lookup_static(sf: Seq<(Seq<char>, JValue)>, name: Seq<char>) -> Option<
    JValue,
>
    decreases sf.len(),
{
    if sf.len() == 0 {
        None
    } else if sf.last().0 == name {
        Some(sf.last().1)
    } else {
        spec_lookup_static(sf.drop_last(), name)
    }
}

/// The newest registered class of the given internal name.
pub open spec fn spec_find_class(classes: Seq<JClassSpec>, name: Seq<char>) -> Option<int>
    decreases classes.len(),
{
    if classes.len() == 0 {
        None
    } else if classes.last().this_class == name {
        Some(classes.len() - 1)
    } else {
        spec_find_class(classes.drop_last(), name)
    }
}

/// Build the static-field table of a class at initialization.
fn init_statics(cls: &JClass) -> (r: Vec<(String, JValue)>)
    ensures
        statics_view(r@) == spec_init_statics(cls@.fields),
{
    let mut out: Vec<(String, JValue)> = Vec::new();
    let n = cls.fields.len();
    let mut i: usize = 0;
    proof {
        assert(statics_view(out@) =~= spec_init_statics(cls@.fields.take(0)));
    }
    while i < n
        invariant
            i <= n,
            n == cls.fields@.len(),
            statics_view(out@) == spec_init_statics(cls@.fields.take(i as int)),
        decreases n - i,
    {
        let ghost prev = statics_view(out@);
        let f = &cls.fields[i];
        if f.access_flags & ACC_STATIC != 0 {
            let v = match &f.constant_value {
                Some(v) => *v,
                None => f.jtype.to_default_value(),
            };
            out.push((f.name.clone(), v));
            proof {
                assert(statics_view(out@) =~= prev.push((f@.name, spec_static_value(f@))));
            }
        }
        proof {
            assert(cls@.fields.take(i + 1).drop_last() =~= cls@.fields.take(i as int));
            assert(cls@.fields.take(i + 1).last() == cls@.fields[i as int]);
        }
        i = i + 1;
    }
    proof {
        assert(cls@.fields.take(n as int) =~= cls@.fields);
    }
    out
}

/// Look up a static field by name; the last entry wins. Fails with
/// `VmError::FieldNotFound` exactly when no entry carries the name.
fn lookup_static(sf: &Vec<(String, JValue)>, name: &String) -> (r: Result<JValue, VmError>)
    ensures
        r matches Ok(v) ==> spec_lookup_static(statics_view(sf@), name@) == Some(v),
        r is Err ==> spec_lookup_static(statics_view(sf@), name@) is None && r == Err::<
            JValue,
            VmError,
        >(VmError::FieldNotFound),
{
    let n = sf.len();
    let mut i: usize = n;
    proof {
        assert(statics_view(sf@).take(n as int) =~= statics_view(sf@));
    }
    while i > 0
        invariant
            i <= n,
            n == sf@.len(),
            spec_lookup_static(statics_view(sf@), name@) == spec_lookup_static(
                statics_view(sf@).take(i as int),
                name@,
            ),
        decreases i,
    {
        i = i - 1;
        let e = &sf[i];
        proof {
            assert(statics_view(sf@).take(i + 1).drop_last() =~= statics_view(sf@).take(i as int));
            assert(statics_view(sf@).take(i + 1).last() == statics_view(sf@)[i as int]);
        }
        if e.0 == *name {
            return Ok(e.1);
        }
    }
    proof {
        assert(statics_view(sf@).take(0) =~= Seq::<(Seq<char>, JValue)>::empty());
    }
    Err(VmError::FieldNotFound)
}

/// Overwrite the last entry under `name`. Fails with
/// `VmError::FieldNotFound` exactly when no entry carries the name.
fn set_static(sf: &mut Vec<(String, JValue)>, name: &String, v: JValue) -> (r: Result<
    (),
    VmError,
>)
    ensures
        r matches Ok(u) ==> spec_lookup_static(statics_view(old(sf)@), name@) is Some
            && final(sf)@.len() == old(sf)@.len() && spec_lookup_static(
            statics_view(final(sf)@),
            name@,
        ) == Some(v) && (forall|other: Seq<char>|
            other != name@ ==> spec_lookup_static(statics_view(final(sf)@), other)
                == spec_lookup_static(statics_view(old(sf)@), other)),
        r is Err ==> spec_lookup_static(statics_view(old(sf)@), name@) is None && final(sf)@
            == old(sf)@ && r == Err::<(), VmError>(VmError::FieldNotFound),
{
    let n = sf.len();
    let mut i: usize = n;
    while i > 0
        invariant
            i <= n,
            n == sf@.len(),
            sf@ == old(sf)@,
            forall|t: int| i <= t < n ==> (#[trigger] statics_view(sf@)[t]).0 != name@,
        decreases i,
    {
        i = i - 1;
        let matched = sf[i].0 == *name;
        if matched {
            let key = sf[i].0.clone();
            sf[i] = (key, v);
            proof {
                assert(statics_view(sf@) =~= statics_view(old(sf)@).update(
                    i as int,
                    (name@, v),
                ));
                lemma_set_static(statics_view(old(sf)@), i as int, name@, v);
            }
            return Ok(());
        }
    }
    proof {
        lemma_lookup_none(statics_view(sf@), name@);
    }
    Err(VmError::FieldNotFound)
}

proof fn lemma_lookup_none(sf: Seq<(Seq<char>, JValue)>, name: Seq<char>)
    requires
        forall|t: int| 0 <= t < sf.len() ==> (#[trigger] sf[t]).0 != name,
    ensures
        spec_lookup_static(sf, name) is None,
    decreases sf.len(),
{
    if sf.len() > 0 {
        lemma_lookup_none(sf.drop_last(), name);
    }
}

proof fn lemma_set_static(old_sf: Seq<(Seq<char>, JValue)>, i: int, name: Seq<char>, v: JValue)
    requires
        0 <= i < old_sf.len(),
        old_sf[i].0 == name,
        forall|t: int| i < t < old_sf.len() ==> (#[trigger] old_sf[t]).0 != name,
    ensures
        spec_lookup_static(old_sf, name) is Some,
        spec_lookup_static(old_sf.update(i, (name, v)), name) == Some(v),
        forall|other: Seq<char>|
            other != name ==> spec_lookup_static(old_sf.update(i, (name, v)), other)
                == spec_lookup_static(old_sf, other),
    decreases old_sf.len(),
{
    let new_sf = old_sf.update(i, (name, v));
    if i == old_sf.len() - 1 {
        assert(new_sf.last() == (name, v));
        assert(old_sf.last().0 == name);
        assert forall|other: Seq<char>| other != name implies spec_lookup_static(new_sf, other)
            == spec_lookup_static(old_sf, other) by {
            assert(new_sf.drop_last() =~= old_sf.drop_last());
        }
    } else {
        lemma_set_static(old_sf.drop_last(), i, name, v);
        assert(new_sf.drop_last() =~= old_sf.drop_last().update(i, (name, v)));
        assert(new_sf.last() == old_sf.last());
        assert(old_sf.last().0 != name);
        assert(spec_lookup_static(old_sf, name) is Some);
        assert(spec_lookup_static(new_sf, name) == Some(v)) by {
            assert(new_sf.last().0 != name);
        }
        assert forall|other: Seq<char>| other != name implies spec_lookup_static(new_sf, other)
            == spec_lookup_static(old_sf, other) by {
            if new_sf.last().0 == other {
                assert(spec_lookup_static(new_sf, other) == Some(new_sf.last().1));
                assert(spec_lookup_static(old_sf, other) == Some(old_sf.last().1));
            } else {
                assert(spec_lookup_static(new_sf, other) == spec_lookup_static(
                    new_sf.drop_last(),
                    other,
                ));
                assert(spec_lookup_static(old_sf, other) == spec_lookup_static(
                    old_sf.drop_last(),
                    other,
                ));
                assert(spec_lookup_static(new_sf.drop_last(), other) == spec_lookup_static(
                    old_sf.drop_last(),
                    other,
                ));
            }
        }
    }
}


/// Total slots the parameters of a method occupy: two for each long or
/// double, one otherwise.
pub open spec fn spec_param_slots(params: Seq<crate::desc::JTypeSpec>) -> int
    decreases params.len(),
{
    if params.len() == 0 {
        0
    } else {
        spec_param_slots(params.drop_last()) + (if params.last().array_dim == 0 && (
        params.last().ctype is Long || params.last().ctype is Double) {
            2int
        } else {
            1int
        })
    }
}

/// The newest registered class of the given name.
fn find_class(classes: &Vec<JClass>, name: &String) -> (r: Result<usize, VmError>)
    ensures
        r matches Ok(i) ==> spec_find_class(classes_view(classes@), name@) == Some(i as int) && i
            < classes@.len(),
        r is Err ==> spec_find_class(classes_view(classes@), name@) is None && r == Err::<
            usize,
            VmError,
        >(VmError::ClassNotFound),
{
    let n = classes.len();
    let mut i: usize = n;
    proof {
        assert(classes_view(classes@).take(n as int) =~= classes_view(classes@));
    }
    while i > 0
        invariant
            i <= n,
            n == classes@.len(),
            spec_find_class(classes_view(classes@), name@) == spec_find_class(
                classes_view(classes@).take(i as int),
                name@,
            ),
        decreases i,
    {
        i = i - 1;
        proof {
            assert(classes_view(classes@).take(i + 1).drop_last() =~= classes_view(
                classes@,
            ).take(i as int));
            assert(classes_view(classes@).take(i + 1).last() == classes_view(classes@)[i as int]);
        }
        if classes[i].this_class == *name {
            return Ok(i);
        }
    }
    proof {
        assert(classes_view(classes@).take(0) =~= Seq::<JClassSpec>::empty());
    }
    Err(VmError::ClassNotFound)
}

/// Find the newest class of the given name and run its initialization if it
/// has not run yet: every static field is set to its `ConstantValue`
/// initializer or to the zero value of its type, and the class is marked
/// initialized. Returns the class handle.
fn ensure_initialized(
    classes: &Vec<JClass>,
    class_rt: &mut Vec<JClassRuntimeInfo>,
    name: &String,
) -> (r: Result<usize, VmError>)
    requires
        old(class_rt)@.len() == classes@.len(),
    ensures
        final(class_rt)@.len() == classes@.len(),
        r matches Ok(i) ==> spec_find_class(classes_view(classes@), name@) == Some(i as int) && i
            < classes@.len() && final(class_rt)@[i as int].initialized && statics_view(
            final(class_rt)@[i as int].static_fields@,
        ) == (if old(class_rt)@[i as int].initialized {
            statics_view(old(class_rt)@[i as int].static_fields@)
        } else {
            spec_init_statics(classes_view(classes@)[i as int].fields)
        }) && (forall|j: int|
            0 <= j < classes@.len() && j != i ==> final(class_rt)@[j] == old(class_rt)@[j]),
        r is Err ==> spec_find_class(classes_view(classes@), name@) is None && final(class_rt)@
            == old(class_rt)@ && r == Err::<usize, VmError>(VmError::ClassNotFound),
{
    let i = find_class(classes, name)?;
    proof {
        lemma_find_class_in_range(classes_view(classes@), name@);
    }
    let initialized = class_rt[i].initialized;
    if !initialized {
        let statics = init_statics(&classes[i]);
        class_rt[i] = JClassRuntimeInfo { initialized: true, static_fields: statics };
    }
    Ok(i)
}

proof fn lemma_find_class_in_range(classes: Seq<JClassSpec>, name: Seq<char>)
    ensures
        spec_find_class(classes, name) matches Some(i) ==> 0 <= i < classes.len()
            && classes[i].this_class == name,
    decreases classes.len(),
{
    if classes.len() > 0 && !(classes.last().this_class == name) {
        lemma_find_class_in_range(classes.drop_last(), name);
    }
}

/// The registered classes keep satisfying every frame when one more class
/// is added at the end.
proof fn lemma_thread_wf_extend(
    stack: Seq<JValue>,
    frames: Seq<JStackFrame>,
    classes: Seq<JClassSpec>,
    c: JClassSpec,
)
    requires
        thread_wf(stack, frames, classes),
    ensures
        thread_wf(stack, frames, classes.push(c)),
{
    assert forall|i: int| 0 <= i < frames.len() implies frame_valid(
        #[trigger] frames[i],
        classes.push(c),
    ) by {
        assert(frame_valid(frames[i], classes));
        assert(classes.push(c)[frames[i].class as int] == classes[frames[i].class as int]);
    }
}

/// Replacing the top frame with one that keeps its reservation and handles
/// (only `sp` and `pc` may differ) preserves thread well-formedness.
proof fn lemma_wf_update_top(
    stack: Seq<JValue>,
    frames: Seq<JStackFrame>,
    classes: Seq<JClassSpec>,
    f: JStackFrame,
)
    requires
        thread_wf(stack, frames, classes),
        frames.len() > 0,
        f.bp == frames.last().bp,
        f.local == frames.last().local,
        f.stack == frames.last().stack,
        f.class == frames.last().class,
        f.method == frames.last().method,
        f.sp <= f.stack,
    ensures
        thread_wf(stack, frames.update(frames.len() - 1, f), classes),
{
    let n = frames.len() as int;
    let nf = frames.update(n - 1, f);
    assert(frame_end(nf[n - 1]) == frame_end(frames[n - 1]));
    assert forall|i: int| 0 <= i < nf.len() - 1 implies (#[trigger] nf[i + 1]).bp == frame_end(
        nf[i],
    ) by {
        assert(frames[i + 1].bp == frame_end(frames[i]));
    }
    assert forall|i: int| 0 <= i < nf.len() implies frame_valid(#[trigger] nf[i], classes) by {
        assert(frame_valid(frames[i], classes));
    }
}

/// The local slots a list of arguments occupies, in order: each long or
/// double contributes its value and an `Invalid` upper slot, every other
/// value one slot.
pub open spec fn spec_arg_expand(args: Seq<JValue>) -> Seq<JValue>
    decreases args.len(),
{
    if args.len() == 0 {
        Seq::empty()
    } else {
        spec_arg_expand(args.drop_last()) + (if args.last().spec_is_wide() {
            seq![args.last(), JValue::Invalid]
        } else {
            seq![args.last()]
        })
    }
}

proof fn lemma_arg_expand_mono(args: Seq<JValue>, j: int)
    requires
        0 <= j <= args.len(),
    ensures
        spec_arg_expand(args.take(j)).len() <= spec_arg_expand(args).len(),
        spec_arg_expand(args).len() <= 2 * args.len(),
    decreases args.len() - j,
{
    if j < args.len() {
        lemma_arg_expand_mono(args, j + 1);
        assert(args.take(j + 1).drop_last() =~= args.take(j));
        assert(args.take(args.len() as int) =~= args);
    } else {
        assert(args.take(j) =~= args);
        lemma_arg_expand_len(args);
    }
}

proof fn lemma_arg_expand_len(args: Seq<JValue>)
    ensures
        args.len() <= spec_arg_expand(args).len() <= 2 * args.len(),
    decreases args.len(),
{
    if args.len() > 0 {
        lemma_arg_expand_len(args.drop_last());
    }
}

impl JVM {
    /// One entry of runtime state per registered class, and every thread
    /// well-formed against the registry.
    pub open spec fn wf(self) -> bool {
        &&& self.class_rt@.len() == self.classes@.len()
        &&& forall|t: int|
            0 <= t < self.threads@.len() ==> (#[trigger] self.threads@[t]).wf(
                classes_view(self.classes@),
            )
    }

    /// A machine with no classes and one empty thread.
    pub fn new() -> (r: Self)
        ensures
            r.wf(),
            r.classes@.len() == 0,
            r.threads@.len() == 1,
            r.threads@[0].frames@.len() == 0,
    {
        let mut threads: Vec<JThreadContext> = Vec::new();
        threads.push(JThreadContext::new());
        JVM { classes: Vec::new(), class_rt: Vec::new(), threads }
    }

    /// Register a natively constructed class under its own name, with fresh
    /// uninitialized runtime state. A class of the same name registered
    /// earlier is shadowed for new lookups.
    pub fn load_native_class(&mut self, cls: JClass)
        requires
            old(self).wf(),
        ensures
            final(self).wf(),
            final(self).classes@ == old(self).classes@.push(cls),
            final(self).class_rt@.len() == old(self).class_rt@.len() + 1,
            final(self).class_rt@.last().initialized == false,
            final(self).class_rt@.last().static_fields@ == Seq::<(String, JValue)>::empty(),
            final(self).class_rt@.drop_last() == old(self).class_rt@,
            final(self).threads@ == old(self).threads@,
    {
        let ghost cv = classes_view(self.classes@);
        let ghost c0 = cls@;
        self.classes.push(cls);
        self.class_rt.push(JClassRuntimeInfo { initialized: false, static_fields: Vec::new() });
        proof {
            assert(classes_view(self.classes@) =~= cv.push(c0));
            assert forall|t: int| 0 <= t < self.threads@.len() implies (
            #[trigger] self.threads@[t]).wf(classes_view(self.classes@)) by {
                lemma_thread_wf_extend(
                    self.threads@[t].stack@,
                    self.threads@[t].frames@,
                    cv,
                    c0,
                );
            }
        }
    }

    /// Parse a class file and register the class under its own name.
    pub fn load_class(&mut self, bin: &[u8]) -> (r: Result<(), VmError>)
        requires
            old(self).wf(),
        ensures
            final(self).wf(),
            r matches Ok(u) ==> crate::parse::spec_parse_class_file(bin@) matches Some(cs)
                && classes_view(final(self).classes@) == classes_view(old(self).classes@).push(cs)
                && final(self).class_rt@.len() == old(self).class_rt@.len() + 1 && final(self).class_rt@.last().initialized == false && final(self).class_rt@.last().static_fields@
                == Seq::<(String, JValue)>::empty() && final(self).class_rt@.drop_last() == old(self).class_rt@,
            final(self).threads@ == old(self).threads@,
            r is Err ==> crate::parse::spec_parse_class_file(bin@) is None && final(self).classes@
                == old(self).classes@ && final(self).class_rt@ == old(self).class_rt@,
    {
        let cls = match crate::parse::parse_class_file(bin) {
            Ok(c) => c,
            Err(e) => {
                return Err(e);
            },
        };
        let ghost cv = classes_view(self.classes@);
        let ghost c0 = cls@;
        self.load_native_class(cls);
        proof {
            assert(classes_view(self.classes@) =~= cv.push(c0));
        }
        Ok(())
    }

    /// The handle of the newest registered class of the given internal
    /// name; `VmError::ClassNotFound` when none is registered.
    pub fn get_class(&self, name: &str) -> (r: Result<usize, VmError>)
        ensures
            r matches Ok(h) ==> spec_find_class(classes_view(self.classes@), name@) == Some(
                h as int,
            ) && h < self.classes@.len(),
            r is Err ==> spec_find_class(classes_view(self.classes@), name@) is None && r == Err::<
                usize,
                VmError,
            >(VmError::ClassNotFound),
    {
        let key: String = name.to_owned();
        find_class(&self.classes, &key)
    }

    /// The class record behind a handle.
    pub fn class_at(&self, h: usize) -> (r: &JClass)
        requires
            h < self.classes@.len(),
        ensures
            r == self.classes@[h as int],
    {
        &self.classes[h]
    }

    /// The current value of a static field, triggering the owning class's
    /// initialization first.
    pub fn get_static(&mut self, clsname: &str, fname: &str) -> (r: Result<JValue, VmError>)
        requires
            old(self).wf(),
        ensures
            final(self).wf(),
            final(self).classes@ == old(self).classes@,
            final(self).threads@ == old(self).threads@,
            final(self).class_rt@.len() == old(self).class_rt@.len(),
            match spec_find_class(classes_view(old(self).classes@), clsname@) {
                Some(i) => final(self).class_rt@[i].initialized && statics_view(
                    final(self).class_rt@[i].static_fields@,
                ) == (if old(self).class_rt@[i].initialized {
                    statics_view(old(self).class_rt@[i].static_fields@)
                } else {
                    spec_init_statics(classes_view(old(self).classes@)[i].fields)
                }) && (forall|j: int|
                    0 <= j < old(self).class_rt@.len() && j != i ==> final(self).class_rt@[j]
                        == old(self).class_rt@[j]),
                None => final(self).class_rt@ == old(self).class_rt@,
            },
            r matches Ok(v) ==> (spec_find_class(classes_view(old(self).classes@), clsname@)
                matches Some(i) && spec_lookup_static(
                statics_view(final(self).class_rt@[i].static_fields@),
                fname@,
            ) == Some(v)),
            r == Err::<JValue, VmError>(VmError::ClassNotFound) <==> spec_find_class(
                classes_view(old(self).classes@),
                clsname@,
            ) is None,
            r == Err::<JValue, VmError>(VmError::FieldNotFound) <==> (spec_find_class(
                classes_view(old(self).classes@),
                clsname@,
            ) matches Some(i) && spec_lookup_static(
                statics_view(final(self).class_rt@[i].static_fields@),
                fname@,
            ) is None),
    {
        let cname: String = clsname.to_owned();
        let fkey: String = fname.to_owned();
        let i = ensure_initialized(&self.classes, &mut self.class_rt, &cname)?;
        let v = lookup_static(&self.class_rt[i].static_fields, &fkey)?;
        Ok(v)
    }
}


/// Reinterpret a signed 32-bit value as its bit pattern.
pub fn i32_to_u32(a: i32) -> (r: u32)
    ensures
        r as int == (if a >= 0 {
            a as int
        } else {
            a + 0x100000000
        }),
{
    if a >= 0 {
        a as u32
    } else {
        0xffffffffu32 - ((-(a + 1)) as u32)
    }
}

/// Reinterpret a signed 64-bit value as its bit pattern.
pub fn i64_to_u64(a: i64) -> (r: u64)
    ensures
        r as int == (if a >= 0 {
            a as int
        } else {
            a + 0x10000000000000000
        }),
{
    if a >= 0 {
        a as u64
    } else {
        0xffffffffffffffffu64 - ((-(a + 1)) as u64)
    }
}

/// Set the program counter to `base + off` when that lands inside the code
/// array; `VmError::MalformedBytecode` otherwise.
fn branch_to(f: &mut JStackFrame, base: usize, off: i64, code_len: usize) -> (r: Result<
    (),
    VmError,
>)
    ensures
        final(f).bp == old(f).bp && final(f).local == old(f).local && final(f).stack == old(f).stack && final(f).sp == old(f).sp && final(f).class == old(f).class && final(f).method
            == old(f).method,
        r matches Ok(u) ==> 0 <= base + off < code_len && final(f).pc == base + off,
        r is Err ==> !(0 <= base + off < code_len) && *final(f) == *old(f) && r == Err::<
            (),
            VmError,
        >(VmError::MalformedBytecode),
{
    let t: i128 = base as i128 + off as i128;
    if t < 0 || t >= code_len as i128 {
        return Err(VmError::MalformedBytecode);
    }
    f.pc = t as usize;
    Ok(())
}

/// What one data instruction asks the interpreter loop to do next.
pub enum Flow {
    Next,
    Raise,
    Ret(Option<JValue>),
    CallStatic(u16),
    FetchStatic(u16),
    StoreStatic(u16),
}

/// Execute one instruction that touches only the current frame: constants,
/// loads and stores, operand-stack shuffles, integer and long arithmetic
/// (two's-complement wraparound; division and remainder by zero raise the
/// arithmetic exception; the shift amount is masked to the width), bit
/// operations, conversions among the integer kinds, comparisons and
/// branches. Floating-point values are moved between slots but never
/// computed with; arithmetic on them, object and array instructions, and
/// the subroutine instructions report `VmError::UnsupportedOp`. Returns,
/// invocations and static-field instructions are handed back to the loop.
#[verifier::rlimit(100)]
fn exec_data_op(
    stack: &mut Vec<JValue>,
    frame: &mut JStackFrame,
    cls: &JClass,
    op: Op,
    old_pc: usize,
    code_len: usize,
) -> (r: Result<Flow, VmError>)
    requires
        frame_end(*old(frame)) <= old(stack)@.len(),
        old(frame).sp <= old(frame).stack,
    ensures
        final(stack)@.len() == old(stack)@.len(),
        final(frame).sp <= final(frame).stack,
        final(frame).bp == old(frame).bp && final(frame).local == old(frame).local && final(frame).stack == old(frame).stack && final(frame).class == old(frame).class && final(frame).method == old(frame).method,
        r matches Ok(fl) && (fl is FetchStatic || fl is StoreStatic || fl is CallStatic) ==> (
        op matches Op::Getstatic { index } || op matches Op::Putstatic { index }
            || op matches Op::Invokestatic { index }),
{
    match op {
        Op::Nop => Ok(Flow::Next),
        Op::AconstNull => {
            push_operand(stack, frame, JValue::Null)?;
            Ok(Flow::Next)
        },
        Op::IconstM1 => {
            push_operand(stack, frame, JValue::Int(-1))?;
            Ok(Flow::Next)
        },
        Op::Iconst0 => {
            push_operand(stack, frame, JValue::Int(0))?;
            Ok(Flow::Next)
        },
        Op::Iconst1 => {
            push_operand(stack, frame, JValue::Int(1))?;
            Ok(Flow::Next)
        },
        Op::Iconst2 => {
            push_operand(stack, frame, JValue::Int(2))?;
            Ok(Flow::Next)
        },
        Op::Iconst3 => {
            push_operand(stack, frame, JValue::Int(3))?;
            Ok(Flow::Next)
        },
        Op::Iconst4 => {
            push_operand(stack, frame, JValue::Int(4))?;
            Ok(Flow::Next)
        },
        Op::Iconst5 => {
            push_operand(stack, frame, JValue::Int(5))?;
            Ok(Flow::Next)
        },
        Op::Lconst0 => {
            push_wide(stack, frame, JValue::Long(0))?;
            Ok(Flow::Next)
        },
        Op::Lconst1 => {
            push_wide(stack, frame, JValue::Long(1))?;
            Ok(Flow::Next)
        },
        // floating-point constants are stored as their IEEE-754 bit patterns
        Op::Fconst0 => {
            push_operand(stack, frame, JValue::FloatBits(0))?;
            Ok(Flow::Next)
        },
        Op::Fconst1 => {
            push_operand(stack, frame, JValue::FloatBits(0x3f800000))?;
            Ok(Flow::Next)
        },
        Op::Fconst2 => {
            push_operand(stack, frame, JValue::FloatBits(0x40000000))?;
            Ok(Flow::Next)
        },
        Op::Dconst0 => {
            push_wide(stack, frame, JValue::DoubleBits(0))?;
            Ok(Flow::Next)
        },
        Op::Dconst1 => {
            push_wide(stack, frame, JValue::DoubleBits(0x3ff0000000000000))?;
            Ok(Flow::Next)
        },
        Op::Bipush { byte } => {
            push_operand(stack, frame, JValue::Int(u8_to_i8(byte) as i32))?;
            Ok(Flow::Next)
        },
        Op::Sipush { bytes } => {
            push_operand(stack, frame, JValue::Int(u16_to_i16(bytes) as i32))?;
            Ok(Flow::Next)
        },
        Op::Ldc { index } => {
            exec_ldc(stack, frame, cls, index as u16)
        },
        Op::LdcW { index } => {
            exec_ldc(stack, frame, cls, index)
        },
        Op::Ldc2W { index } => {
            exec_ldc2(stack, frame, cls, index)
        },
        Op::Iload { index } => exec_iload(stack, frame, index as usize),
        Op::Lload { index } => exec_lload(stack, frame, index as usize),
        Op::Fload { index } => exec_fload(stack, frame, index as usize),
        Op::Dload { index } => exec_dload(stack, frame, index as usize),
        Op::Aload { index } => exec_aload(stack, frame, index as usize),
        Op::WideIload { index } => exec_iload(stack, frame, index as usize),
        Op::WideLload { index } => exec_lload(stack, frame, index as usize),
        Op::WideFload { index } => exec_fload(stack, frame, index as usize),
        Op::WideDload { index } => exec_dload(stack, frame, index as usize),
        Op::WideAload { index } => exec_aload(stack, frame, index as usize),
        Op::Iload0 => exec_iload(stack, frame, 0),
        Op::Iload1 => exec_iload(stack, frame, 1),
        Op::Iload2 => exec_iload(stack, frame, 2),
        Op::Iload3 => exec_iload(stack, frame, 3),
        Op::Lload0 => exec_lload(stack, frame, 0),
        Op::Lload1 => exec_lload(stack, frame, 1),
        Op::Lload2 => exec_lload(stack, frame, 2),
        Op::Lload3 => exec_lload(stack, frame, 3),
        Op::Fload0 => exec_fload(stack, frame, 0),
        Op::Fload1 => exec_fload(stack, frame, 1),
        Op::Fload2 => exec_fload(stack, frame, 2),
        Op::Fload3 => exec_fload(stack, frame, 3),
        Op::Dload0 => exec_dload(stack, frame, 0),
        Op::Dload1 => exec_dload(stack, frame, 1),
        Op::Dload2 => exec_dload(stack, frame, 2),
        Op::Dload3 => exec_dload(stack, frame, 3),
        Op::Aload0 => exec_aload(stack, frame, 0),
        Op::Aload1 => exec_aload(stack, frame, 1),
        Op::Aload2 => exec_aload(stack, frame, 2),
        Op::Aload3 => exec_aload(stack, frame, 3),
        Op::Istore { index } => exec_istore(stack, frame, index as usize),
        Op::Lstore { index } => exec_lstore(stack, frame, index as usize),
        Op::Fstore { index } => exec_fstore(stack, frame, index as usize),
        Op::Dstore { index } => exec_dstore(stack, frame, index as usize),
        Op::Astore { index } => exec_astore(stack, frame, index as usize),
        Op::WideIstore { index } => exec_istore(stack, frame, index as usize),
        Op::WideLstore { index } => exec_lstore(stack, frame, index as usize),
        Op::WideFstore { index } => exec_fstore(stack, frame, index as usize),
        Op::WideDstore { index } => exec_dstore(stack, frame, index as usize),
        Op::WideAstore { index } => exec_astore(stack, frame, index as usize),
        Op::Istore0 => exec_istore(stack, frame, 0),
        Op::Istore1 => exec_istore(stack, frame, 1),
        Op::Istore2 => exec_istore(stack, frame, 2),
        Op::Istore3 => exec_istore(stack, frame, 3),
        Op::Lstore0 => exec_lstore(stack, frame, 0),
        Op::Lstore1 => exec_lstore(stack, frame, 1),
        Op::Lstore2 => exec_lstore(stack, frame, 2),
        Op::Lstore3 => exec_lstore(stack, frame, 3),
        Op::Fstore0 => exec_fstore(stack, frame, 0),
        Op::Fstore1 => exec_fstore(stack, frame, 1),
        Op::Fstore2 => exec_fstore(stack, frame, 2),
        Op::Fstore3 => exec_fstore(stack, frame, 3),
        Op::Dstore0 => exec_dstore(stack, frame, 0),
        Op::Dstore1 => exec_dstore(stack, frame, 1),
        Op::Dstore2 => exec_dstore(stack, frame, 2),
        Op::Dstore3 => exec_dstore(stack, frame, 3),
        Op::Astore0 => exec_astore(stack, frame, 0),
        Op::Astore1 => exec_astore(stack, frame, 1),
        Op::Astore2 => exec_astore(stack, frame, 2),
        Op::Astore3 => exec_astore(stack, frame, 3),
        Op::Pop => {
            pop_operand(stack, frame)?;
            Ok(Flow::Next)
        },
        Op::Pop2 => {
            pop_operand(stack, frame)?;
            pop_operand(stack, frame)?;
            Ok(Flow::Next)
        },
        Op::Dup => {
            let v = pop_operand(stack, frame)?;
            push_operand(stack, frame, v)?;
            push_operand(stack, frame, v)?;
            Ok(Flow::Next)
        },
        Op::DupX1 => {
            let v1 = pop_operand(stack, frame)?;
            let v2 = pop_operand(stack, frame)?;
            push_operand(stack, frame, v1)?;
            push_operand(stack, frame, v2)?;
            push_operand(stack, frame, v1)?;
            Ok(Flow::Next)
        },
        Op::DupX2 => {
            let v1 = pop_operand(stack, frame)?;
            let v2 = pop_operand(stack, frame)?;
            let v3 = pop_operand(stack, frame)?;
            push_operand(stack, frame, v1)?;
            push_operand(stack, frame, v3)?;
            push_operand(stack, frame, v2)?;
            push_operand(stack, frame, v1)?;
            Ok(Flow::Next)
        },
        Op::Dup2 => {
            let v1 = pop_operand(stack, frame)?;
            let v2 = pop_operand(stack, frame)?;
            push_operand(stack, frame, v2)?;
            push_operand(stack, frame, v1)?;
            push_operand(stack, frame, v2)?;
            push_operand(stack, frame, v1)?;
            Ok(Flow::Next)
        },
        Op::Dup2X1 => {
            let v1 = pop_operand(stack, frame)?;
            let v2 = pop_operand(stack, frame)?;
            let v3 = pop_operand(stack, frame)?;
            push_operand(stack, frame, v2)?;
            push_operand(stack, frame, v1)?;
            push_operand(stack, frame, v3)?;
            push_operand(stack, frame, v2)?;
            push_operand(stack, frame, v1)?;
            Ok(Flow::Next)
        },
        Op::Dup2X2 => {
            let v1 = pop_operand(stack, frame)?;
            let v2 = pop_operand(stack, frame)?;
            let v3 = pop_operand(stack, frame)?;
            let v4 = pop_operand(stack, frame)?;
            push_operand(stack, frame, v2)?;
            push_operand(stack, frame, v1)?;
            push_operand(stack, frame, v4)?;
            push_operand(stack, frame, v3)?;
            push_operand(stack, frame, v2)?;
            push_operand(stack, frame, v1)?;
            Ok(Flow::Next)
        },
        Op::Swap => {
            let v1 = pop_operand(stack, frame)?;
            let v2 = pop_operand(stack, frame)?;
            push_operand(stack, frame, v1)?;
            push_operand(stack, frame, v2)?;
            Ok(Flow::Next)
        },
        Op::Iadd => {
            let b = pop_int(stack, frame)?;
            let a = pop_int(stack, frame)?;
            push_operand(stack, frame, JValue::Int(a.wrapping_add(b)))?;
            Ok(Flow::Next)
        },
        Op::Isub => {
            let b = pop_int(stack, frame)?;
            let a = pop_int(stack, frame)?;
            push_operand(stack, frame, JValue::Int(a.wrapping_sub(b)))?;
            Ok(Flow::Next)
        },
        Op::Imul => {
            let b = pop_int(stack, frame)?;
            let a = pop_int(stack, frame)?;
            push_operand(stack, frame, JValue::Int(a.wrapping_mul(b)))?;
            Ok(Flow::Next)
        },
        Op::Idiv => {
            let b = pop_int(stack, frame)?;
            let a = pop_int(stack, frame)?;
            if b == 0 {
                return Ok(Flow::Raise);
            }
            let q = match a.checked_div(b) {
                Some(q) => q,
                None => i32::MIN,
            };
            push_operand(stack, frame, JValue::Int(q))?;
            Ok(Flow::Next)
        },
        Op::Irem => {
            let b = pop_int(stack, frame)?;
            let a = pop_int(stack, frame)?;
            if b == 0 {
                return Ok(Flow::Raise);
            }
            let q = match a.checked_rem(b) {
                Some(q) => q,
                None => 0,
            };
            push_operand(stack, frame, JValue::Int(q))?;
            Ok(Flow::Next)
        },
        Op::Ineg => {
            let a = pop_int(stack, frame)?;
            push_operand(stack, frame, JValue::Int(0i32.wrapping_sub(a)))?;
            Ok(Flow::Next)
        },
        Op::Ladd => {
            let b = pop_long(stack, frame)?;
            let a = pop_long(stack, frame)?;
            push_wide(stack, frame, JValue::Long(a.wrapping_add(b)))?;
            Ok(Flow::Next)
        },
        Op::Lsub => {
            let b = pop_long(stack, frame)?;
            let a = pop_long(stack, frame)?;
            push_wide(stack, frame, JValue::Long(a.wrapping_sub(b)))?;
            Ok(Flow::Next)
        },
        Op::Lmul => {
            let b = pop_long(stack, frame)?;
            let a = pop_long(stack, frame)?;
            push_wide(stack, frame, JValue::Long(a.wrapping_mul(b)))?;
            Ok(Flow::Next)
        },
        Op::Ldiv => {
            let b = pop_long(stack, frame)?;
            let a = pop_long(stack, frame)?;
            if b == 0 {
                return Ok(Flow::Raise);
            }
            let q = match a.checked_div(b) {
                Some(q) => q,
                None => i64::MIN,
            };
            push_wide(stack, frame, JValue::Long(q))?;
            Ok(Flow::Next)
        },
        Op::Lrem => {
            let b = pop_long(stack, frame)?;
            let a = pop_long(stack, frame)?;
            if b == 0 {
                return Ok(Flow::Raise);
            }
            let q = match a.checked_rem(b) {
                Some(q) => q,
                None => 0,
            };
            push_wide(stack, frame, JValue::Long(q))?;
            Ok(Flow::Next)
        },
        Op::Lneg => {
            let a = pop_long(stack, frame)?;
            push_wide(stack, frame, JValue::Long(0i64.wrapping_sub(a)))?;
            Ok(Flow::Next)
        },
        Op::Ishl => {
            let b = pop_int(stack, frame)?;
            let a = pop_int(stack, frame)?;
            push_operand(stack, frame, JValue::Int(a.wrapping_shl(i32_to_u32(b))))?;
            Ok(Flow::Next)
        },
        Op::Ishr => {
            let b = pop_int(stack, frame)?;
            let a = pop_int(stack, frame)?;
            push_operand(stack, frame, JValue::Int(a.wrapping_shr(i32_to_u32(b))))?;
            Ok(Flow::Next)
        },
        Op::Iushr => {
            let b = pop_int(stack, frame)?;
            let a = pop_int(stack, frame)?;
            let bits = i32_to_u32(a).wrapping_shr(i32_to_u32(b));
            push_operand(stack, frame, JValue::Int(u32_to_i32(bits)))?;
            Ok(Flow::Next)
        },
        Op::Lshl => {
            let b = pop_int(stack, frame)?;
            let a = pop_long(stack, frame)?;
            push_wide(stack, frame, JValue::Long(a.wrapping_shl(i32_to_u32(b))))?;
            Ok(Flow::Next)
        },
        Op::Lshr => {
            let b = pop_int(stack, frame)?;
            let a = pop_long(stack, frame)?;
            push_wide(stack, frame, JValue::Long(a.wrapping_shr(i32_to_u32(b))))?;
            Ok(Flow::Next)
        },
        Op::Lushr => {
            let b = pop_int(stack, frame)?;
            let a = pop_long(stack, frame)?;
            let bits = i64_to_u64(a).wrapping_shr(i32_to_u32(b));
            push_wide(stack, frame, JValue::Long(u64_to_i64(bits)))?;
            Ok(Flow::Next)
        },
        Op::Iand => {
            let b = pop_int(stack, frame)?;
            let a = pop_int(stack, frame)?;
            push_operand(stack, frame, JValue::Int(u32_to_i32(i32_to_u32(a) & i32_to_u32(b))))?;
            Ok(Flow::Next)
        },
        Op::Ior => {
            let b = pop_int(stack, frame)?;
            let a = pop_int(stack, frame)?;
            push_operand(stack, frame, JValue::Int(u32_to_i32(i32_to_u32(a) | i32_to_u32(b))))?;
            Ok(Flow::Next)
        },
        Op::Ixor => {
            let b = pop_int(stack, frame)?;
            let a = pop_int(stack, frame)?;
            push_operand(stack, frame, JValue::Int(u32_to_i32(i32_to_u32(a) ^ i32_to_u32(b))))?;
            Ok(Flow::Next)
        },
        Op::Land => {
            let b = pop_long(stack, frame)?;
            let a = pop_long(stack, frame)?;
            push_wide(stack, frame, JValue::Long(u64_to_i64(i64_to_u64(a) & i64_to_u64(b))))?;
            Ok(Flow::Next)
        },
        Op::Lor => {
            let b = pop_long(stack, frame)?;
            let a = pop_long(stack, frame)?;
            push_wide(stack, frame, JValue::Long(u64_to_i64(i64_to_u64(a) | i64_to_u64(b))))?;
            Ok(Flow::Next)
        },
        Op::Lxor => {
            let b = pop_long(stack, frame)?;
            let a = pop_long(stack, frame)?;
            push_wide(stack, frame, JValue::Long(u64_to_i64(i64_to_u64(a) ^ i64_to_u64(b))))?;
            Ok(Flow::Next)
        },
        Op::Iinc { index, constant } => {
            exec_iinc(stack, frame, index as usize, constant as i32)
        },
        Op::WideIinc { index, constant } => {
            exec_iinc(stack, frame, index as usize, constant as i32)
        },
        Op::I2L => {
            let a = pop_int(stack, frame)?;
            push_wide(stack, frame, JValue::Long(a as i64))?;
            Ok(Flow::Next)
        },
        Op::L2I => {
            let a = pop_long(stack, frame)?;
            let low = #[verifier::truncate] ((i64_to_u64(a) & 0xffffffff) as u32);
            push_operand(stack, frame, JValue::Int(u32_to_i32(low)))?;
            Ok(Flow::Next)
        },
        Op::I2B => {
            let a = pop_int(stack, frame)?;
            let byte = #[verifier::truncate] ((i32_to_u32(a) & 0xff) as u8);
            push_operand(stack, frame, JValue::Int(u8_to_i8(byte) as i32))?;
            Ok(Flow::Next)
        },
        Op::I2C => {
            let a = pop_int(stack, frame)?;
            let ch = #[verifier::truncate] ((i32_to_u32(a) & 0xffff) as u16);
            push_operand(stack, frame, JValue::Int(ch as i32))?;
            Ok(Flow::Next)
        },
        Op::I2S => {
            let a = pop_int(stack, frame)?;
            let sh = #[verifier::truncate] ((i32_to_u32(a) & 0xffff) as u16);
            push_operand(stack, frame, JValue::Int(u16_to_i16(sh) as i32))?;
            Ok(Flow::Next)
        },
        Op::Lcmp => {
            let b = pop_long(stack, frame)?;
            let a = pop_long(stack, frame)?;
            let c: i32 = if a > b {
                1
            } else if a < b {
                -1
            } else {
                0
            };
            push_operand(stack, frame, JValue::Int(c))?;
            Ok(Flow::Next)
        },
        Op::Ifeq { branch } => {
            let v = pop_int(stack, frame)?;
            if v == 0 {
                branch_to(frame, old_pc, branch as i64, code_len)?;
            }
            Ok(Flow::Next)
        },
        Op::Ifne { branch } => {
            let v = pop_int(stack, frame)?;
            if v != 0 {
                branch_to(frame, old_pc, branch as i64, code_len)?;
            }
            Ok(Flow::Next)
        },
        Op::Iflt { branch } => {
            let v = pop_int(stack, frame)?;
            if v < 0 {
                branch_to(frame, old_pc, branch as i64, code_len)?;
            }
            Ok(Flow::Next)
        },
        Op::Ifge { branch } => {
            let v = pop_int(stack, frame)?;
            if v >= 0 {
                branch_to(frame, old_pc, branch as i64, code_len)?;
            }
            Ok(Flow::Next)
        },
        Op::Ifgt { branch } => {
            let v = pop_int(stack, frame)?;
            if v > 0 {
                branch_to(frame, old_pc, branch as i64, code_len)?;
            }
            Ok(Flow::Next)
        },
        Op::Ifle { branch } => {
            let v = pop_int(stack, frame)?;
            if v <= 0 {
                branch_to(frame, old_pc, branch as i64, code_len)?;
            }
            Ok(Flow::Next)
        },
        Op::IfIcmpeq { branch } => {
            let b = pop_int(stack, frame)?;
            let a = pop_int(stack, frame)?;
            if a == b {
                branch_to(frame, old_pc, branch as i64, code_len)?;
            }
            Ok(Flow::Next)
        },
        Op::IfIcmpne { branch } => {
            let b = pop_int(stack, frame)?;
            let a = pop_int(stack, frame)?;
            if a != b {
                branch_to(frame, old_pc, branch as i64, code_len)?;
            }
            Ok(Flow::Next)
        },
        Op::IfIcmplt { branch } => {
            let b = pop_int(stack, frame)?;
            let a = pop_int(stack, frame)?;
            if a < b {
                branch_to(frame, old_pc, branch as i64, code_len)?;
            }
            Ok(Flow::Next)
        },
        Op::IfIcmpge { branch } => {
            let b = pop_int(stack, frame)?;
            let a = pop_int(stack, frame)?;
            if a >= b {
                branch_to(frame, old_pc, branch as i64, code_len)?;
            }
            Ok(Flow::Next)
        },
        Op::IfIcmpgt { branch } => {
            let b = pop_int(stack, frame)?;
            let a = pop_int(stack, frame)?;
            if a > b {
                branch_to(frame, old_pc, branch as i64, code_len)?;
            }
            Ok(Flow::Next)
        },
        Op::IfIcmple { branch } => {
            let b = pop_int(stack, frame)?;
            let a = pop_int(stack, frame)?;
            if a <= b {
                branch_to(frame, old_pc, branch as i64, code_len)?;
            }
            Ok(Flow::Next)
        },
        Op::IfAcmpeq { branch } => {
            let b = pop_ref(stack, frame)?;
            let a = pop_ref(stack, frame)?;
            if a == b {
                branch_to(frame, old_pc, branch as i64, code_len)?;
            }
            Ok(Flow::Next)
        },
        Op::IfAcmpne { branch } => {
            let b = pop_ref(stack, frame)?;
            let a = pop_ref(stack, frame)?;
            if a != b {
                branch_to(frame, old_pc, branch as i64, code_len)?;
            }
            Ok(Flow::Next)
        },
        Op::Ifnull { branch } => {
            let v = pop_ref(stack, frame)?;
            if v {
                branch_to(frame, old_pc, branch as i64, code_len)?;
            }
            Ok(Flow::Next)
        },
        Op::Ifnonnull { branch } => {
            let v = pop_ref(stack, frame)?;
            if !v {
                branch_to(frame, old_pc, branch as i64, code_len)?;
            }
            Ok(Flow::Next)
        },
        Op::Goto { branch } => {
            branch_to(frame, old_pc, branch as i64, code_len)?;
            Ok(Flow::Next)
        },
        Op::GotoW { branch } => {
            branch_to(frame, old_pc, branch as i64, code_len)?;
            Ok(Flow::Next)
        },
        Op::Tableswitch { default, low, high, jump_offsets } => {
            let v = pop_int(stack, frame)?;
            let off: i64 = if v < low || v > high {
                default as i64
            } else {
                let iv = (v as i64 - low as i64) as usize;
                if iv >= jump_offsets.len() {
                    return Err(VmError::MalformedBytecode);
                }
                jump_offsets[iv] as i64
            };
            branch_to(frame, old_pc, off, code_len)?;
            Ok(Flow::Next)
        },
        Op::Lookupswitch { default, npairs, match_offsets } => {
            let v = pop_int(stack, frame)?;
            let n = match_offsets.len();
            let mut off: i64 = default as i64;
            let mut k: usize = 0;
            while k < n
                invariant
                    k <= n,
                    n == match_offsets@.len(),
                decreases n - k,
            {
                let (key, o) = match_offsets[k];
                if key == v {
                    off = o as i64;
                    break ;
                }
                k = k + 1;
            }
            branch_to(frame, old_pc, off, code_len)?;
            Ok(Flow::Next)
        },
        Op::Ireturn => {
            let v = pop_int(stack, frame)?;
            Ok(Flow::Ret(Some(JValue::Int(v))))
        },
        Op::Lreturn => {
            let v = pop_long(stack, frame)?;
            Ok(Flow::Ret(Some(JValue::Long(v))))
        },
        Op::Freturn => {
            let v = pop_operand(stack, frame)?;
            match v {
                JValue::FloatBits(x) => Ok(Flow::Ret(Some(JValue::FloatBits(x)))),
                _ => Err(VmError::InvalidOperand),
            }
        },
        Op::Dreturn => {
            let v = pop_value(stack, frame)?;
            match v {
                JValue::DoubleBits(x) => Ok(Flow::Ret(Some(JValue::DoubleBits(x)))),
                _ => Err(VmError::InvalidOperand),
            }
        },
        Op::Areturn => {
            let v = pop_operand(stack, frame)?;
            match v {
                JValue::Null => Ok(Flow::Ret(Some(JValue::Null))),
                _ => Err(VmError::InvalidOperand),
            }
        },
        Op::Return => Ok(Flow::Ret(None)),
        Op::Getstatic { index } => Ok(Flow::FetchStatic(index)),
        Op::Putstatic { index } => Ok(Flow::StoreStatic(index)),
        Op::Invokestatic { index } => Ok(Flow::CallStatic(index)),
        _ => Err(VmError::UnsupportedOp),
    }
}

/// Pop a reference operand; true means null. Only the null reference
/// exists in the executable core.
fn pop_ref(stack: &Vec<JValue>, f: &mut JStackFrame) -> (r: Result<bool, VmError>)
    requires
        frame_end(*old(f)) <= stack@.len(),
        old(f).sp <= old(f).stack,
    ensures
        final(f).sp <= final(f).stack,
        frame_end(*final(f)) == frame_end(*old(f)),
        final(f).bp == old(f).bp && final(f).local == old(f).local && final(f).stack == old(f).stack && final(f).pc == old(f).pc && final(f).class == old(f).class && final(f).method
            == old(f).method,
        r is Ok <==> old(f).sp > 0 && stack@[old(f).bp + old(f).local + old(f).sp - 1]
            == JValue::Null,
        r matches Ok(v) ==> v == true && *final(f) == (JStackFrame {
            sp: (old(f).sp - 1) as usize,
            ..*old(f)
        }),
        r is Err ==> *final(f) == *old(f) && r == Err::<bool, VmError>(
            if old(f).sp == 0 {
                VmError::IndexOutOfRange
            } else {
                VmError::InvalidOperand
            },
        ),
{
    let v = pop_operand(stack, f)?;
    match v {
        JValue::Null => Ok(true),
        _ => {
            f.sp = f.sp + 1;
            Err(VmError::InvalidOperand)
        },
    }
}

fn exec_iload(stack: &mut Vec<JValue>, f: &mut JStackFrame, idx: usize) -> (r: Result<
    Flow,
    VmError,
>)
    requires
        frame_end(*old(f)) <= old(stack)@.len(),
        old(f).sp <= old(f).stack,
    ensures
        final(stack)@.len() == old(stack)@.len(),
        final(f).sp <= final(f).stack,
        final(f).bp == old(f).bp && final(f).local == old(f).local && final(f).stack == old(f).stack && final(f).class == old(f).class && final(f).method == old(f).method,
        r matches Ok(fl) ==> fl is Next,
{
    let v = get_local(stack, f, idx)?;
    match v {
        JValue::Int(x) => {
            push_operand(stack, f, JValue::Int(x))?;
            Ok(Flow::Next)
        },
        _ => Err(VmError::InvalidOperand),
    }
}

fn exec_lload(stack: &mut Vec<JValue>, f: &mut JStackFrame, idx: usize) -> (r: Result<
    Flow,
    VmError,
>)
    requires
        frame_end(*old(f)) <= old(stack)@.len(),
        old(f).sp <= old(f).stack,
    ensures
        final(stack)@.len() == old(stack)@.len(),
        final(f).sp <= final(f).stack,
        final(f).bp == old(f).bp && final(f).local == old(f).local && final(f).stack == old(f).stack && final(f).class == old(f).class && final(f).method == old(f).method,
        r matches Ok(fl) ==> fl is Next,
{
    let v = get_local(stack, f, idx)?;
    match v {
        JValue::Long(x) => {
            push_wide(stack, f, JValue::Long(x))?;
            Ok(Flow::Next)
        },
        _ => Err(VmError::InvalidOperand),
    }
}

fn exec_fload(stack: &mut Vec<JValue>, f: &mut JStackFrame, idx: usize) -> (r: Result<
    Flow,
    VmError,
>)
    requires
        frame_end(*old(f)) <= old(stack)@.len(),
        old(f).sp <= old(f).stack,
    ensures
        final(stack)@.len() == old(stack)@.len(),
        final(f).sp <= final(f).stack,
        final(f).bp == old(f).bp && final(f).local == old(f).local && final(f).stack == old(f).stack && final(f).class == old(f).class && final(f).method == old(f).method,
        r matches Ok(fl) ==> fl is Next,
{
    let v = get_local(stack, f, idx)?;
    match v {
        JValue::FloatBits(x) => {
            push_operand(stack, f, JValue::FloatBits(x))?;
            Ok(Flow::Next)
        },
        _ => Err(VmError::InvalidOperand),
    }
}

fn exec_dload(stack: &mut Vec<JValue>, f: &mut JStackFrame, idx: usize) -> (r: Result<
    Flow,
    VmError,
>)
    requires
        frame_end(*old(f)) <= old(stack)@.len(),
        old(f).sp <= old(f).stack,
    ensures
        final(stack)@.len() == old(stack)@.len(),
        final(f).sp <= final(f).stack,
        final(f).bp == old(f).bp && final(f).local == old(f).local && final(f).stack == old(f).stack && final(f).class == old(f).class && final(f).method == old(f).method,
        r matches Ok(fl) ==> fl is Next,
{
    let v = get_local(stack, f, idx)?;
    match v {
        JValue::DoubleBits(x) => {
            push_wide(stack, f, JValue::DoubleBits(x))?;
            Ok(Flow::Next)
        },
        _ => Err(VmError::InvalidOperand),
    }
}

fn exec_aload(stack: &mut Vec<JValue>, f: &mut JStackFrame, idx: usize) -> (r: Result<
    Flow,
    VmError,
>)
    requires
        frame_end(*old(f)) <= old(stack)@.len(),
        old(f).sp <= old(f).stack,
    ensures
        final(stack)@.len() == old(stack)@.len(),
        final(f).sp <= final(f).stack,
        final(f).bp == old(f).bp && final(f).local == old(f).local && final(f).stack == old(f).stack && final(f).class == old(f).class && final(f).method == old(f).method,
        r matches Ok(fl) ==> fl is Next,
{
    let v = get_local(stack, f, idx)?;
    match v {
        JValue::Null => {
            push_operand(stack, f, JValue::Null)?;
            Ok(Flow::Next)
        },
        _ => Err(VmError::InvalidOperand),
    }
}

fn exec_istore(stack: &mut Vec<JValue>, f: &mut JStackFrame, idx: usize) -> (r: Result<
    Flow,
    VmError,
>)
    requires
        frame_end(*old(f)) <= old(stack)@.len(),
        old(f).sp <= old(f).stack,
    ensures
        final(stack)@.len() == old(stack)@.len(),
        final(f).sp <= final(f).stack,
        final(f).bp == old(f).bp && final(f).local == old(f).local && final(f).stack == old(f).stack && final(f).class == old(f).class && final(f).method == old(f).method,
        r matches Ok(fl) ==> fl is Next,
{
    let v = pop_int(stack, f)?;
    set_local(stack, f, idx, JValue::Int(v))?;
    Ok(Flow::Next)
}

fn exec_lstore(stack: &mut Vec<JValue>, f: &mut JStackFrame, idx: usize) -> (r: Result<
    Flow,
    VmError,
>)
    requires
        frame_end(*old(f)) <= old(stack)@.len(),
        old(f).sp <= old(f).stack,
    ensures
        final(stack)@.len() == old(stack)@.len(),
        final(f).sp <= final(f).stack,
        final(f).bp == old(f).bp && final(f).local == old(f).local && final(f).stack == old(f).stack && final(f).class == old(f).class && final(f).method == old(f).method,
        r matches Ok(fl) ==> fl is Next,
{
    let v = pop_long(stack, f)?;
    if idx >= f.local || f.local - idx < 2 {
        return Err(VmError::IndexOutOfRange);
    }
    set_local(stack, f, idx, JValue::Long(v))?;
    set_local(stack, f, idx + 1, JValue::Invalid)?;
    Ok(Flow::Next)
}

fn exec_fstore(stack: &mut Vec<JValue>, f: &mut JStackFrame, idx: usize) -> (r: Result<
    Flow,
    VmError,
>)
    requires
        frame_end(*old(f)) <= old(stack)@.len(),
        old(f).sp <= old(f).stack,
    ensures
        final(stack)@.len() == old(stack)@.len(),
        final(f).sp <= final(f).stack,
        final(f).bp == old(f).bp && final(f).local == old(f).local && final(f).stack == old(f).stack && final(f).class == old(f).class && final(f).method == old(f).method,
        r matches Ok(fl) ==> fl is Next,
{
    let v = pop_operand(stack, f)?;
    match v {
        JValue::FloatBits(x) => {
            set_local(stack, f, idx, JValue::FloatBits(x))?;
            Ok(Flow::Next)
        },
        _ => Err(VmError::InvalidOperand),
    }
}

fn exec_dstore(stack: &mut Vec<JValue>, f: &mut JStackFrame, idx: usize) -> (r: Result<
    Flow,
    VmError,
>)
    requires
        frame_end(*old(f)) <= old(stack)@.len(),
        old(f).sp <= old(f).stack,
    ensures
        final(stack)@.len() == old(stack)@.len(),
        final(f).sp <= final(f).stack,
        final(f).bp == old(f).bp && final(f).local == old(f).local && final(f).stack == old(f).stack && final(f).class == old(f).class && final(f).method == old(f).method,
        r matches Ok(fl) ==> fl is Next,
{
    let v = pop_value(stack, f)?;
    match v {
        JValue::DoubleBits(x) => {
            if idx >= f.local || f.local - idx < 2 {
                return Err(VmError::IndexOutOfRange);
            }
            set_local(stack, f, idx, JValue::DoubleBits(x))?;
            set_local(stack, f, idx + 1, JValue::Invalid)?;
            Ok(Flow::Next)
        },
        _ => Err(VmError::InvalidOperand),
    }
}

fn exec_astore(stack: &mut Vec<JValue>, f: &mut JStackFrame, idx: usize) -> (r: Result<
    Flow,
    VmError,
>)
    requires
        frame_end(*old(f)) <= old(stack)@.len(),
        old(f).sp <= old(f).stack,
    ensures
        final(stack)@.len() == old(stack)@.len(),
        final(f).sp <= final(f).stack,
        final(f).bp == old(f).bp && final(f).local == old(f).local && final(f).stack == old(f).stack && final(f).class == old(f).class && final(f).method == old(f).method,
        r matches Ok(fl) ==> fl is Next,
{
    let v = pop_operand(stack, f)?;
    match v {
        JValue::Null => {
            set_local(stack, f, idx, JValue::Null)?;
            Ok(Flow::Next)
        },
        _ => Err(VmError::InvalidOperand),
    }
}

fn exec_iinc(stack: &mut Vec<JValue>, f: &mut JStackFrame, idx: usize, c: i32) -> (r: Result<
    Flow,
    VmError,
>)
    requires
        frame_end(*old(f)) <= old(stack)@.len(),
        old(f).sp <= old(f).stack,
    ensures
        final(stack)@.len() == old(stack)@.len(),
        final(f).sp <= final(f).stack,
        final(f).bp == old(f).bp && final(f).local == old(f).local && final(f).stack == old(f).stack && final(f).class == old(f).class && final(f).method == old(f).method,
        r matches Ok(fl) ==> fl is Next,
{
    let v = get_local(stack, f, idx)?;
    match v {
        JValue::Int(x) => {
            set_local(stack, f, idx, JValue::Int(x.wrapping_add(c)))?;
            Ok(Flow::Next)
        },
        _ => Err(VmError::InvalidOperand),
    }
}

/// Push the single-slot constant a `ldc` index denotes: an integer, float
/// bits, or the null stub of a string constant.
fn exec_ldc(stack: &mut Vec<JValue>, f: &mut JStackFrame, cls: &JClass, index: u16) -> (r: Result<
    Flow,
    VmError,
>)
    requires
        frame_end(*old(f)) <= old(stack)@.len(),
        old(f).sp <= old(f).stack,
    ensures
        final(stack)@.len() == old(stack)@.len(),
        final(f).sp <= final(f).stack,
        final(f).bp == old(f).bp && final(f).local == old(f).local && final(f).stack == old(f).stack && final(f).class == old(f).class && final(f).method == old(f).method,
        r matches Ok(fl) ==> fl is Next,
{
    let v = match cls.constant_pool.get(index)? {
        ConstInfo::Integer { bytes } => JValue::Int(*bytes),
        ConstInfo::Float { bits } => JValue::FloatBits(*bits),
        ConstInfo::Str { string } => JValue::Null,
        _ => {
            return Err(VmError::UnsupportedOp);
        },
    };
    push_operand(stack, f, v)?;
    Ok(Flow::Next)
}

/// Push the two-slot constant a `ldc2_w` index denotes.
fn exec_ldc2(stack: &mut Vec<JValue>, f: &mut JStackFrame, cls: &JClass, index: u16) -> (r: Result<
    Flow,
    VmError,
>)
    requires
        frame_end(*old(f)) <= old(stack)@.len(),
        old(f).sp <= old(f).stack,
    ensures
        final(stack)@.len() == old(stack)@.len(),
        final(f).sp <= final(f).stack,
        final(f).bp == old(f).bp && final(f).local == old(f).local && final(f).stack == old(f).stack && final(f).class == old(f).class && final(f).method == old(f).method,
        r matches Ok(fl) ==> fl is Next,
{
    let v = match cls.constant_pool.get(index)? {
        ConstInfo::Long { bytes } => JValue::Long(*bytes),
        ConstInfo::Double { bits } => JValue::DoubleBits(*bits),
        _ => {
            return Err(VmError::UnsupportedOp);
        },
    };
    push_wide(stack, f, v)?;
    Ok(Flow::Next)
}


/// The exception table of a frame's method.
pub open spec fn etable_of(classes: Seq<JClassSpec>, f: JStackFrame) -> Seq<ExceptionTableEntry> {
    classes[f.class as int].methods[f.method as int].code.unwrap().exception_table
}

/// No frame of the stack has any exception-table entry.
pub open spec fn no_handlers(classes: Seq<JClassSpec>, frames: Seq<JStackFrame>) -> bool {
    forall|i: int| 0 <= i < frames.len() ==> etable_of(classes, #[trigger] frames[i]).len() == 0
}

/// Every entry of a table catches anything (catch type index 0).
pub open spec fn all_catch_any(table: Seq<ExceptionTableEntry>) -> bool {
    forall|i: int| 0 <= i < table.len() ==> (#[trigger] table[i]).catch_type == 0
}

/// The handler of the first table entry whose range covers `at_pc`.
pub open spec fn first_cover(table: Seq<ExceptionTableEntry>, at_pc: int) -> Option<u16>
    decreases table.len(),
{
    if table.len() == 0 {
        None
    } else if table[0].start_pc <= at_pc < table[0].end_pc {
        Some(table[0].handler_pc)
    } else {
        first_cover(table.skip(1), at_pc)
    }
}

/// The effect of a two-operand integer instruction as seen at `step`: it
/// succeeds exactly when the two top operand slots hold `Int` values, the
/// result replaces them, and the program counter advances past the
/// instruction.
pub open spec fn step_binop32(
    old_stack: Seq<JValue>,
    new_stack: Seq<JValue>,
    old_frames: Seq<JStackFrame>,
    new_frames: Seq<JStackFrame>,
    r: Result<(), VmError>,
    len: int,
    f: spec_fn(i32, i32) -> i32,
) -> bool {
    let f0 = old_frames.last();
    let o = f0.bp + f0.local;
    &&& (r is Ok <==> f0.sp >= 2 && old_stack[o + f0.sp - 1] is Int && old_stack[
        o + f0.sp - 2
    ] is Int)
    &&& (r is Ok ==> ({
        &&& old_stack[o + f0.sp - 2] matches JValue::Int(a) && old_stack[
            o + f0.sp - 1
        ] matches JValue::Int(b) && new_stack == old_stack.update(
            o + f0.sp - 2,
            JValue::Int(f(a, b)),
        ) && new_frames == old_frames.update(
            old_frames.len() - 1,
            (JStackFrame { sp: (f0.sp - 1) as usize, pc: (f0.pc + len) as usize, ..f0 }),
        )
    }))
}

/// The effect of integer division and remainder as seen at `step`: with
/// `Int` operands and a nonzero divisor the result replaces them; a zero
/// divisor raises the arithmetic exception, and with no handler anywhere
/// it unwinds every frame and reports the uncaught-exception failure.
pub open spec fn step_idivrem(
    old_stack: Seq<JValue>,
    new_stack: Seq<JValue>,
    old_frames: Seq<JStackFrame>,
    new_frames: Seq<JStackFrame>,
    classes: Seq<JClassSpec>,
    r: Result<(), VmError>,
    len: int,
    f: spec_fn(i32, i32) -> i32,
) -> bool {
    let f0 = old_frames.last();
    let o = f0.bp + f0.local;
    f0.sp >= 2 ==> (match (old_stack[o + f0.sp - 2], old_stack[o + f0.sp - 1]) {
        (JValue::Int(a), JValue::Int(b)) => {
            &&& (b != 0 ==> r is Ok && new_stack == old_stack.update(
                o + f0.sp - 2,
                JValue::Int(f(a, b)),
            ) && new_frames == old_frames.update(
                old_frames.len() - 1,
                (JStackFrame { sp: (f0.sp - 1) as usize, pc: (f0.pc + len) as usize, ..f0 }),
            ))
            &&& (b == 0 && no_handlers(classes, old_frames) ==> r == Err::<(), VmError>(
                VmError::UncaughtException,
            ) && new_frames.len() == 0 && new_stack.len() == 0)
        },
        _ => true,
    })
}

/// The effect of `ireturn` as seen at `step`: it succeeds exactly when the
/// top operand slot holds an `Int` and, if a caller exists, its operand
/// region has a free slot; the frame is popped, its reservation released,
/// and the value lands on top of the caller's operand region.
pub open spec fn step_ireturn(
    old_stack: Seq<JValue>,
    new_stack: Seq<JValue>,
    old_frames: Seq<JStackFrame>,
    new_frames: Seq<JStackFrame>,
    r: Result<(), VmError>,
) -> bool {
    let f0 = old_frames.last();
    let o = f0.bp + f0.local;
    let n = old_frames.len() as int;
    &&& (r is Ok <==> f0.sp > 0 && old_stack[o + f0.sp - 1] is Int && (n > 1
        ==> old_frames[n - 2].sp < old_frames[n - 2].stack))
    &&& (r is Ok ==> (if n == 1 {
        new_frames.len() == 0 && new_stack.len() == 0
    } else {
        let caller = old_frames[n - 2];
        &&& new_frames == old_frames.drop_last().update(
            n - 2,
            (JStackFrame { sp: (caller.sp + 1) as usize, ..caller }),
        )
        &&& new_stack == old_stack.take(f0.bp as int).update(
            caller.bp + caller.local + caller.sp,
            old_stack[o + f0.sp - 1],
        )
    }))
}

/// Popping the top frame of a well-formed thread leaves a well-formed
/// thread: the buffer shrinks to the popped frame's base, which is where
/// the remaining top frame's reservation ends.
proof fn lemma_wf_pop(stack: Seq<JValue>, frames: Seq<JStackFrame>, classes: Seq<JClassSpec>)
    requires
        thread_wf(stack, frames, classes),
        frames.len() > 0,
    ensures
        thread_wf(
            stack.take(frames.last().bp as int),
            frames.drop_last(),
            classes,
        ),
        frames.len() > 1 ==> frames.last().bp == frame_end(frames.drop_last().last()),
        frames.len() == 1 ==> frames.last().bp == 0,
{
    let n = frames.len() as int;
    let nf = frames.drop_last();
    if n > 1 {
        assert(frames[(n - 2) + 1].bp == frame_end(frames[n - 2]));
    }
    assert forall|i: int| 0 <= i < nf.len() - 1 implies (#[trigger] nf[i + 1]).bp == frame_end(
        nf[i],
    ) by {
        assert(frames[i + 1].bp == frame_end(frames[i]));
    }
    assert forall|i: int| 0 <= i < nf.len() implies frame_valid(#[trigger] nf[i], classes) by {
        assert(frame_valid(frames[i], classes));
    }
}

/// Scan a method's exception table for the first entry whose range covers
/// `at_pc` and whose catch type matches the arithmetic exception: index 0
/// catches anything; a nonzero index must name a `Class` entry whose name
/// is the arithmetic-exception class. When every entry catches anything,
/// the result is exactly the first covering entry's handler.
fn find_handler_in(cls: &JClass, code: &Code, at_pc: usize) -> (r: Result<Option<u16>, VmError>)
    ensures
        all_catch_any(code@.exception_table) ==> r == Ok::<Option<u16>, VmError>(
            first_cover(code@.exception_table, at_pc as int),
        ),
{
    let ghost tv = code@.exception_table;
    let n = code.exception_table.len();
    let mut k: usize = 0;
    proof {
        assert(tv.skip(0) =~= tv);
    }
    while k < n
        invariant
            k <= n,
            n == tv.len(),
            tv == code@.exception_table,
            all_catch_any(tv) ==> first_cover(tv, at_pc as int) == first_cover(
                tv.skip(k as int),
                at_pc as int,
            ),
        decreases n - k,
    {
        let e = code.exception_table[k];
        proof {
            assert(tv.skip(k as int)[0] == tv[k as int]);
            assert(tv.skip(k as int).skip(1) =~= tv.skip(k + 1));
        }
        if (e.start_pc as usize) <= at_pc && at_pc < (e.end_pc as usize) {
            let matched = if e.catch_type == 0 {
                true
            } else {
                match cls.constant_pool.get(e.catch_type) {
                    Ok(entry) => match entry {
                        ConstInfo::Class { name } => {
                            let lit: String = "java/lang/ArithmeticException".to_owned();
                            *name == lit
                        },
                        _ => {
                            return Err(VmError::MalformedClassFile);
                        },
                    },
                    Err(er) => {
                        return Err(er);
                    },
                }
            };
            if matched {
                return Ok(Some(e.handler_pc));
            }
        }
        k = k + 1;
    }
    Ok(None)
}

/// Unwind a bytecode-level arithmetic exception raised at `at_pc` of the
/// top frame: search each frame's exception table in order for a range
/// containing the program counter whose catch type is index 0 ("any") or
/// resolves to the arithmetic-exception class; on a match, the operand
/// region is reset to hold only the (null-stubbed) exception reference and
/// control moves to the handler. A frame without a match is popped and the
/// search continues in the caller at its current program counter — the
/// return address of the invocation, one instruction past the invoking
/// opcode. Unwinding past the outermost frame fails with
/// `VmError::UncaughtException`. When no frame has any table entry the
/// result is exactly that failure, with every frame popped; when the top
/// frame's entries all catch anything and one covers `at_pc`, control
/// moves to exactly the first covering handler.
fn raise_exception(classes: &Vec<JClass>, th: &mut JThreadContext, at_pc0: usize) -> (r: Result<
    (),
    VmError,
>)
    requires
        old(th).wf(classes_view(classes@)),
        old(th).frames@.len() > 0,
    ensures
        final(th).wf(classes_view(classes@)),
        no_handlers(classes_view(classes@), old(th).frames@) ==> r == Err::<(), VmError>(
            VmError::UncaughtException,
        ) && final(th).frames@.len() == 0 && final(th).stack@.len() == 0,
        ({
            let f0 = old(th).frames@.last();
            let table0 = etable_of(classes_view(classes@), f0);
            (all_catch_any(table0) && first_cover(table0, at_pc0 as int) is Some) ==> ({
                let h = first_cover(table0, at_pc0 as int).unwrap();
                if f0.stack > 0 {
                    r is Ok && final(th).frames@ == old(th).frames@.update(
                        old(th).frames@.len() - 1,
                        (JStackFrame { sp: 1, pc: h as usize, ..f0 }),
                    ) && final(th).stack@ == old(th).stack@.update(f0.bp + f0.local, JValue::Null)
                } else {
                    r == Err::<(), VmError>(VmError::IndexOutOfRange) && final(th).frames@ == old(th).frames@ && final(th).stack@ == old(th).stack@
                }
            })
        }),
{
    let ghost cv = classes_view(classes@);
    let ghost f00 = old(th).frames@.last();
    let ghost table0 = etable_of(cv, f00);
    let ghost premise = all_catch_any(table0) && first_cover(table0, at_pc0 as int) is Some;
    let mut at_pc = at_pc0;
    loop
        invariant
            th.wf(cv),
            cv == classes_view(classes@),
            th.frames@.len() > 0,
            f00 == old(th).frames@.last(),
            table0 == etable_of(cv, f00),
            premise == (all_catch_any(table0) && first_cover(table0, at_pc0 as int) is Some),
            no_handlers(cv, old(th).frames@) ==> no_handlers(cv, th.frames@),
            premise ==> *th == *old(th) && at_pc == at_pc0,
        decreases th.frames@.len(),
    {
        let fi = th.frames.len() - 1;
        let frame = th.frames[fi];
        proof {
            assert(frame_valid(frame, cv));
            assert(frame_end(frame) == th.stack@.len());
        }
        let cls = &classes[frame.class];
        let m = &cls.methods[frame.method];
        let code = match &m.code {
            Some(c) => c,
            None => {
                proof {
                    assert(false);
                }
                return Err(VmError::NoCode);
            },
        };
        proof {
            assert(cls@ == cv[frame.class as int]);
            assert(cls@.methods[frame.method as int] == m@);
            assert(code@.exception_table == etable_of(cv, frame));
            if premise {
                assert(frame == f00);
            }
        }
        let found = match find_handler_in(cls, code, at_pc) {
            Ok(o) => o,
            Err(e) => {
                proof {
                    if no_handlers(cv, old(th).frames@) {
                        assert(all_catch_any(code@.exception_table));
                    }
                    if premise {
                        assert(frame == f00);
                        assert(code@.exception_table == table0);
                        assert(all_catch_any(code@.exception_table));
                        assert(false);
                    }
                }
                return Err(e);
            },
        };
        match found {
            Some(hpc) => {
                let mut nf = frame;
                nf.sp = 0;
                nf.pc = hpc as usize;
                match push_operand(&mut th.stack, &mut nf, JValue::Null) {
                    Ok(u) => {},
                    Err(e) => {
                        proof {
                            if no_handlers(cv, old(th).frames@) {
                                assert(etable_of(cv, frame).len() == 0);
                                assert(first_cover(code@.exception_table, at_pc as int) is None);
                            }
                        }
                        return Err(e);
                    },
                }
                let ghost fr0 = th.frames@;
                th.frames[fi] = nf;
                proof {
                    lemma_wf_update_top(th.stack@, fr0, cv, nf);
                    if no_handlers(cv, old(th).frames@) {
                        assert(etable_of(cv, frame).len() == 0);
                        assert(first_cover(code@.exception_table, at_pc as int) is None);
                    }
                }
                return Ok(());
            },
            None => {
                proof {
                    if premise {
                        assert(first_cover(table0, at_pc0 as int) is Some);
                        assert(found is Some);
                    }
                }
                let ghost pre_stack = th.stack@;
                let ghost pre_frames = th.frames@;
                let popped = th.pop_frame();
                proof {
                    lemma_wf_pop(pre_stack, pre_frames, cv);
                    assert forall|i: int|
                        no_handlers(cv, old(th).frames@) && 0 <= i < th.frames@.len() implies etable_of(
                        cv,
                        #[trigger] th.frames@[i],
                    ).len() == 0 by {
                        assert(th.frames@[i] == pre_frames[i]);
                    }
                }
                if th.frames.len() == 0 {
                    return Err(VmError::UncaughtException);
                }
                let caller = th.frames[th.frames.len() - 1];
                at_pc = caller.pc;
            },
        }
    }
}

/// Fetch, decode, and execute one instruction of the top frame: advance the
/// program counter past the instruction, run it against the operand and
/// local regions, resolve and initialize classes for the static-field and
/// static-invocation instructions, push a frame on invocation, pop one on
/// return (moving the return value to the caller's operand region), and
/// traverse the exception table on an arithmetic exception.
#[verifier::rlimit(100)]
#[verifier::spinoff_prover]
pub fn step(classes: &Vec<JClass>, class_rt: &mut Vec<JClassRuntimeInfo>, th: &mut JThreadContext) -> (r:
    Result<(), VmError>)
    requires
        old(class_rt)@.len() == classes@.len(),
        old(th).wf(classes_view(classes@)),
        old(th).frames@.len() > 0,
    ensures
        final(class_rt)@.len() == classes@.len(),
        final(th).wf(classes_view(classes@)),
        r is Ok ==> (old(th).frames@.last().pc as int) < classes_view(classes@)[old(th).frames@.last().class as int].methods[old(th).frames@.last().method as int].code.unwrap().code.len(),
        ({
            let f0 = old(th).frames@.last();
            let code0 = classes_view(classes@)[f0.class as int].methods[
                f0.method as int
            ].code.unwrap().code;
            match spec_simple_decode(code0, f0.pc as int) {
                Some(d) => ({
                    let op = d.0;
                    let len = d.1;
                    &&& (op matches Op::Getstatic { index } || op matches Op::Putstatic { index }
                        || op matches Op::Invokestatic { index } || final(class_rt)@ == old(class_rt)@)
                    &&& (op == Op::Return ==> r is Ok && final(th).frames@ == old(th).frames@.drop_last() && final(th).stack@ == old(th).stack@.take(f0.bp as int))
                    &&& (op == Op::Ireturn ==> step_ireturn(
                        old(th).stack@,
                        final(th).stack@,
                        old(th).frames@,
                        final(th).frames@,
                        r,
                    ))
                    &&& (op == Op::Iadd ==> step_binop32(
                        old(th).stack@,
                        final(th).stack@,
                        old(th).frames@,
                        final(th).frames@,
                        r,
                        len,
                        |a: i32, b: i32| a.wrapping_add(b),
                    ))
                    &&& (op == Op::Idiv ==> step_idivrem(
                        old(th).stack@,
                        final(th).stack@,
                        old(th).frames@,
                        final(th).frames@,
                        classes_view(classes@),
                        r,
                        len,
                        |a: i32, b: i32|
                            match a.checked_div(b) {
                                Some(q) => q,
                                None => i32::MIN,
                            },
                    ))
                }),
                None => final(class_rt)@ == old(class_rt)@,
            }
        }),
{
    let fi = th.frames.len() - 1;
    let mut frame = th.frames[fi];
    proof {
        assert(frame_valid(frame, classes_view(classes@)));
        assert(frame_end(frame) == th.stack@.len());
    }
    let cls = &classes[frame.class];
    let m = &cls.methods[frame.method];
    let code = match &m.code {
        Some(c) => c,
        None => {
            return Err(VmError::NoCode);
        },
    };
    let code_len = code.code.len();
    let old_pc = frame.pc;
    let (op, len) = match next_op(code.code.as_slice(), old_pc) {
        Ok(p) => p,
        Err(e) => {
            return Err(e);
        },
    };
    let ghost dec = spec_simple_decode(code.code@, old_pc as int);
    frame.pc = old_pc + len;
    let flow = match op {
        Op::Return => Flow::Ret(None),
        Op::Ireturn => {
            let v = match pop_int(&th.stack, &mut frame) {
                Ok(v) => v,
                Err(e) => {
                    return Err(e);
                },
            };
            Flow::Ret(Some(JValue::Int(v)))
        },
        Op::Iadd => {
            let b = match pop_int(&th.stack, &mut frame) {
                Ok(v) => v,
                Err(e) => {
                    return Err(e);
                },
            };
            let a = match pop_int(&th.stack, &mut frame) {
                Ok(v) => v,
                Err(e) => {
                    return Err(e);
                },
            };
            match push_operand(&mut th.stack, &mut frame, JValue::Int(a.wrapping_add(b))) {
                Ok(u) => {},
                Err(e) => {
                    return Err(e);
                },
            }
            Flow::Next
        },
        Op::Isub => {
            let b = match pop_int(&th.stack, &mut frame) {
                Ok(v) => v,
                Err(e) => {
                    return Err(e);
                },
            };
            let a = match pop_int(&th.stack, &mut frame) {
                Ok(v) => v,
                Err(e) => {
                    return Err(e);
                },
            };
            match push_operand(&mut th.stack, &mut frame, JValue::Int(a.wrapping_sub(b))) {
                Ok(u) => {},
                Err(e) => {
                    return Err(e);
                },
            }
            Flow::Next
        },
        Op::Imul => {
            let b = match pop_int(&th.stack, &mut frame) {
                Ok(v) => v,
                Err(e) => {
                    return Err(e);
                },
            };
            let a = match pop_int(&th.stack, &mut frame) {
                Ok(v) => v,
                Err(e) => {
                    return Err(e);
                },
            };
            match push_operand(&mut th.stack, &mut frame, JValue::Int(a.wrapping_mul(b))) {
                Ok(u) => {},
                Err(e) => {
                    return Err(e);
                },
            }
            Flow::Next
        },
        Op::Idiv => {
            let b = match pop_int(&th.stack, &mut frame) {
                Ok(v) => v,
                Err(e) => {
                    return Err(e);
                },
            };
            let a = match pop_int(&th.stack, &mut frame) {
                Ok(v) => v,
                Err(e) => {
                    return Err(e);
                },
            };
            if b == 0 {
                Flow::Raise
            } else {
                let q = match a.checked_div(b) {
                    Some(q) => q,
                    None => i32::MIN,
                };
                match push_operand(&mut th.stack, &mut frame, JValue::Int(q)) {
                    Ok(u) => {},
                    Err(e) => {
                        return Err(e);
                    },
                }
                Flow::Next
            }
        },
        Op::Irem => {
            let b = match pop_int(&th.stack, &mut frame) {
                Ok(v) => v,
                Err(e) => {
                    return Err(e);
                },
            };
            let a = match pop_int(&th.stack, &mut frame) {
                Ok(v) => v,
                Err(e) => {
                    return Err(e);
                },
            };
            if b == 0 {
                Flow::Raise
            } else {
                let q = match a.checked_rem(b) {
                    Some(q) => q,
                    None => 0,
                };
                match push_operand(&mut th.stack, &mut frame, JValue::Int(q)) {
                    Ok(u) => {},
                    Err(e) => {
                        return Err(e);
                    },
                }
                Flow::Next
            }
        },
        other => match exec_data_op(&mut th.stack, &mut frame, cls, other, old_pc, code_len) {
            Ok(fl) => fl,
            Err(e) => {
                return Err(e);
            },
        },
    };
    proof {
        assert(th.wf(classes_view(classes@)));
    }
    match flow {
        Flow::Next => {
            let ghost fr0 = th.frames@;
            th.frames[fi] = frame;
            proof {
                lemma_wf_update_top(th.stack@, fr0, classes_view(classes@), frame);
            }
            Ok(())
        },
        Flow::Raise => raise_exception(classes, th, old_pc),
        Flow::Ret(vopt) => {
            let ghost pre_stack = th.stack@;
            let ghost pre_frames = th.frames@;
            let popped = th.pop_frame();
            proof {
                lemma_wf_pop(pre_stack, pre_frames, classes_view(classes@));
            }
            if th.frames.len() == 0 {
                return Ok(());
            }
            let fj = th.frames.len() - 1;
            let mut caller = th.frames[fj];
            proof {
                assert(frame_valid(caller, classes_view(classes@)));
                assert(frame_end(caller) == th.stack@.len());
            }
            match vopt {
                Some(v) => {
                    match push_value(&mut th.stack, &mut caller, v) {
                        Ok(u) => {},
                        Err(e) => {
                            return Err(e);
                        },
                    }
                },
                None => {},
            }
            let ghost fr0 = th.frames@;
            th.frames[fj] = caller;
            proof {
                lemma_wf_update_top(th.stack@, fr0, classes_view(classes@), caller);
            }
            Ok(())
        },
        Flow::FetchStatic(index) => {
            let t = cls.constant_pool.get_field(index)?;
            let (fcls, fname, _fdesc) = t;
            let ci = ensure_initialized(classes, class_rt, &fcls)?;
            let v = lookup_static(&class_rt[ci].static_fields, &fname)?;
            match push_value(&mut th.stack, &mut frame, v) {
                Ok(u) => {},
                Err(e) => {
                    return Err(e);
                },
            }
            let ghost fr0 = th.frames@;
            th.frames[fi] = frame;
            proof {
                lemma_wf_update_top(th.stack@, fr0, classes_view(classes@), frame);
            }
            Ok(())
        },
        Flow::StoreStatic(index) => {
            let v = pop_value(&th.stack, &mut frame)?;
            let t = cls.constant_pool.get_field(index)?;
            let (fcls, fname, _fdesc) = t;
            let ci = ensure_initialized(classes, class_rt, &fcls)?;
            let mut entry = class_rt.remove(ci);
            let res = set_static(&mut entry.static_fields, &fname, v);
            class_rt.insert(ci, entry);
            proof {
                assert(class_rt@.len() == classes@.len());
            }
            match res {
                Ok(u) => {},
                Err(e) => {
                    return Err(e);
                },
            }
            let ghost fr0 = th.frames@;
            th.frames[fi] = frame;
            proof {
                lemma_wf_update_top(th.stack@, fr0, classes_view(classes@), frame);
            }
            Ok(())
        },
        Flow::CallStatic(index) => call_static(classes, class_rt, th, frame, fi, index),
    }
}

/// Resolve and invoke a static method: look up the referenced class,
/// initialize it if needed, find the method under its name and descriptor,
/// move the argument slots from the caller's operand region into the new
/// frame's first locals, and install the new frame.
fn call_static(
    classes: &Vec<JClass>,
    class_rt: &mut Vec<JClassRuntimeInfo>,
    th: &mut JThreadContext,
    frame: JStackFrame,
    fi: usize,
    index: u16,
) -> (r: Result<(), VmError>)
    requires
        old(class_rt)@.len() == classes@.len(),
        old(th).wf(classes_view(classes@)),
        old(th).frames@.len() > 0,
        fi == old(th).frames@.len() - 1,
        frame.bp == old(th).frames@[fi as int].bp,
        frame.local == old(th).frames@[fi as int].local,
        frame.stack == old(th).frames@[fi as int].stack,
        frame.class == old(th).frames@[fi as int].class,
        frame.method == old(th).frames@[fi as int].method,
        frame.sp <= frame.stack,
    ensures
        final(class_rt)@.len() == classes@.len(),
        final(th).wf(classes_view(classes@)),
{
    let cls = &classes[frame.class];
    let mut frame = frame;
    proof {
        assert(frame_valid(old(th).frames@[fi as int], classes_view(classes@)));
        assert(frame_end(frame) == th.stack@.len());
    }

    let t = cls.constant_pool.get_method(index)?;
    let (mcls, mname, mdesc) = t;
    let ci = ensure_initialized(classes, class_rt, &mcls)?;
    let mut name_desc = mname.clone();
    name_desc.append(mdesc.as_str());
    let mi = classes[ci].get_method(name_desc.as_str())?;
    let target = &classes[ci].methods[mi];
    let np = target.param_types.len();
    let mut argslots: usize = 0;
    let mut j: usize = 0;
    while j < np
        invariant
            j <= np,
            np == target.param_types@.len(),
            argslots <= 2 * j,
            argslots == spec_param_slots(target@.param_types.take(j as int)),
            th.wf(classes_view(classes@)),
            class_rt@.len() == classes@.len(),
        decreases np - j,
    {
        let p = &target.param_types[j];
        let wide = p.array_dim == 0 && (match &p.ctype {
            JComponentType::Long => true,
            JComponentType::Double => true,
            _ => false,
        });
        if argslots >= MAX_STACK {
            return Err(VmError::IndexOutOfRange);
        }
        argslots = argslots + (if wide {
            2
        } else {
            1
        });
        j = j + 1;
        proof {
            assert(target@.param_types.take(j as int).drop_last() =~= target@.param_types.take(
                j - 1,
            ));
            assert(target@.param_types.take(j as int).last() == target@.param_types[j - 1]);
        }
    }
    if frame.sp < argslots {
        return Err(VmError::IndexOutOfRange);
    }
    let base = frame.bp + frame.local + frame.sp - argslots;
    let mut args: Vec<JValue> = Vec::new();
    j = 0;
    while j < argslots
        invariant
            j <= argslots,
            args@.len() == j,
            base + argslots <= th.stack@.len(),
            th.stack@.len() <= MAX_STACK,
            forall|t2: int| 0 <= t2 < j ==> args@[t2] == th.stack@[base + t2],
        decreases argslots - j,
    {
        let v = th.stack[base + j];
        args.push(v);
        j = j + 1;
    }
    frame.sp = frame.sp - argslots;
    let ghost fr0 = th.frames@;
    th.frames[fi] = frame;
    proof {
        lemma_wf_update_top(th.stack@, fr0, classes_view(classes@), frame);
    }
    match th.new_frame(classes, ci, mi) {
        Ok(u) => {},
        Err(e) => {
            return Err(e);
        },
    }
    let nfi = th.frames.len() - 1;
    let nf = th.frames[nfi];
    proof {
        assert(th.frames@.last() == nf);
        assert(frame_end(nf) == th.stack@.len());
    }
    if argslots > nf.local {
        return Err(VmError::IndexOutOfRange);
    }
    let ghost fr1 = th.frames@;
    let ghost slen = th.stack@.len();
    j = 0;
    while j < argslots
        invariant
            j <= argslots,
            argslots <= nf.local,
            args@.len() == argslots,
            nf.bp + nf.local <= th.stack@.len(),
            th.stack@.len() == slen,
            th.frames@ == fr1,
            thread_wf(th.stack@, th.frames@, classes_view(classes@)),
        decreases argslots - j,
    {
        let v = args[j];
        th.stack[nf.bp + j] = v;
        j = j + 1;
    }
    Ok(())
}


impl JVM {
    /// Push a frame for a static method onto a thread and write the
    /// arguments into its first local slots, a long or double argument
    /// occupying two. The frame's program counter starts at 0; `run`
    /// executes it.
    /// Push a frame for a static method onto a thread and write the
    /// arguments into its first local slots, a long or double argument
    /// occupying two (its value, then an `Invalid` marker). The frame's
    /// program counter starts at 0; `run` executes it. Succeeds exactly
    /// when the handles are valid, the method has code, the arguments fit
    /// in its locals, and the frame fits the value buffer.
    pub fn invoke_static(
        &mut self,
        tid: usize,
        class_h: usize,
        method_h: usize,
        args: Vec<JValue>,
    ) -> (r: Result<(), VmError>)
        requires
            old(self).wf(),
        ensures
            final(self).wf(),
            final(self).classes@ == old(self).classes@,
            final(self).class_rt@ == old(self).class_rt@,
            final(self).threads@.len() == old(self).threads@.len(),
            r is Ok <==> ({
                &&& tid < old(self).threads@.len()
                &&& class_h < old(self).classes@.len()
                &&& method_h < classes_view(old(self).classes@)[class_h as int].methods.len()
                &&& classes_view(old(self).classes@)[class_h as int].methods[
                    method_h as int
                ].code matches Some(code) && spec_arg_expand(args@).len() <= code.max_locals
                    && old(self).threads@[tid as int].stack@.len() + code.max_locals
                    + code.max_stack <= MAX_STACK
            }),
            r matches Ok(u) ==> {
                let code = classes_view(old(self).classes@)[class_h as int].methods[
                    method_h as int
                ].code.unwrap();
                let oldth = old(self).threads@[tid as int];
                let f = (JStackFrame {
                    bp: oldth.stack@.len() as usize,
                    local: code.max_locals as usize,
                    stack: code.max_stack as usize,
                    sp: 0,
                    pc: 0,
                    class: class_h,
                    method: method_h,
                });
                &&& final(self).threads@[tid as int].frames@ == oldth.frames@.push(f)
                &&& final(self).threads@[tid as int].stack@ == oldth.stack@ + spec_arg_expand(
                    args@,
                ) + Seq::new(
                    (code.max_locals + code.max_stack - spec_arg_expand(args@).len()) as nat,
                    |i: int| JValue::Invalid,
                )
                &&& forall|t: int|
                    0 <= t < old(self).threads@.len() && t != tid ==> final(self).threads@[t]
                        == old(self).threads@[t]
            },
            r is Err ==> final(self).threads@ == old(self).threads@ && r == Err::<(), VmError>(
                if !(tid < old(self).threads@.len() && class_h < old(self).classes@.len()
                    && method_h < classes_view(old(self).classes@)[
                    class_h as int
                ].methods.len()) {
                    VmError::IndexOutOfRange
                } else if !(classes_view(old(self).classes@)[class_h as int].methods[
                    method_h as int
                ].code is Some) {
                    VmError::NoCode
                } else if spec_arg_expand(args@).len() > classes_view(old(self).classes@)[
                    class_h as int
                ].methods[method_h as int].code.unwrap().max_locals {
                    VmError::IndexOutOfRange
                } else {
                    VmError::StackOverflow
                },
            ),
    {
        if tid >= self.threads.len() || class_h >= self.classes.len() {
            return Err(VmError::IndexOutOfRange);
        }
        if method_h >= self.classes[class_h].methods.len() {
            return Err(VmError::IndexOutOfRange);
        }
        let ml: usize = match &self.classes[class_h].methods[method_h].code {
            Some(c) => c.max_locals as usize,
            None => {
                return Err(VmError::NoCode);
            },
        };
        let na = args.len();
        let mut slots: usize = 0;
        let mut j: usize = 0;
        proof {
            assert(spec_arg_expand(args@.take(0)) =~= Seq::<JValue>::empty());
        }
        while j < na
            invariant
                j <= na,
                na == args@.len(),
                slots == spec_arg_expand(args@.take(j as int)).len(),
                slots <= ml,
                ml <= 0xffff,
                self.wf(),
                self == old(self),
                tid < old(self).threads@.len(),
                class_h < old(self).classes@.len(),
                method_h < classes_view(old(self).classes@)[class_h as int].methods.len(),
                classes_view(old(self).classes@)[class_h as int].methods[
                    method_h as int
                ].code matches Some(code) && code.max_locals == ml,
            decreases na - j,
        {
            let w = args[j].is_wide();
            proof {
                assert(args@.take(j + 1).drop_last() =~= args@.take(j as int));
                assert(args@.take(j + 1).last() == args@[j as int]);
            }
            slots = slots + (if w {
                2
            } else {
                1
            });
            j = j + 1;
            if slots > ml {
                proof {
                    lemma_arg_expand_mono(args@, j as int);
                }
                return Err(VmError::IndexOutOfRange);
            }
        }
        proof {
            assert(args@.take(na as int) =~= args@);
        }
        let mut th = self.threads.remove(tid);
        let ghost old_stack = th.stack@;
        let ghost old_frames = th.frames@;
        let mut res: Result<(), VmError> = Ok(());
        match th.new_frame(&self.classes, class_h, method_h) {
            Ok(u) => {
                let nfi = th.frames.len() - 1;
                let nf = th.frames[nfi];
                proof {
                    assert(th.frames@.last() == nf);
                    assert(frame_end(nf) == th.stack@.len());
                }
                let mut slot: usize = 0;
                j = 0;
                let ghost fr1 = th.frames@;
                let ghost total = nf.local + nf.stack;
                while j < na
                    invariant
                        j <= na,
                        na == args@.len(),
                        slot == spec_arg_expand(args@.take(j as int)).len(),
                        spec_arg_expand(args@).len() <= nf.local,
                        total == nf.local + nf.stack,
                        nf.bp == old_stack.len(),
                        th.frames@ == fr1,
                        th.stack@.len() == old_stack.len() + total,
                        th.stack@ == old_stack + spec_arg_expand(args@.take(j as int)) + Seq::new(
                            (total - slot) as nat,
                            |i: int| JValue::Invalid,
                        ),
                        thread_wf(th.stack@, th.frames@, classes_view(self.classes@)),
                    decreases na - j,
                {
                    let ghost pre = th.stack@;
                    let v = args[j];
                    let wide = v.is_wide();
                    proof {
                        assert(args@.take(j + 1).drop_last() =~= args@.take(j as int));
                        assert(args@.take(j + 1).last() == args@[j as int]);
                        lemma_arg_expand_mono(args@, j + 1);
                    }
                    th.stack[nf.bp + slot] = v;
                    if wide {
                        th.stack[nf.bp + slot + 1] = JValue::Invalid;
                        slot = slot + 2;
                    } else {
                        slot = slot + 1;
                    }
                    j = j + 1;
                    proof {
                        assert(th.stack@ =~= old_stack + spec_arg_expand(args@.take(j as int))
                            + Seq::new((total - slot) as nat, |i: int| JValue::Invalid));
                    }
                }
            },
            Err(e) => {
                res = Err(e);
            },
        }
        let ghost thv = th;
        self.threads.insert(tid, th);
        proof {
            assert(self.threads@ =~= old(self).threads@.update(tid as int, thv));
            if res is Err {
                assert(thv == old(self).threads@[tid as int]);
                assert(self.threads@ =~= old(self).threads@);
            }
            assert forall|t: int| 0 <= t < self.threads@.len() implies (
            #[trigger] self.threads@[t]).wf(classes_view(self.classes@)) by {
                if t != tid {
                    assert(self.threads@[t] == old(self).threads@[t]);
                }
            }
        }
        res
    }

    /// Drive the fetch-decode-execute loop of a thread until its frame
    /// stack empties, a fault occurs, or the tick budget runs out. On
    /// success the thread's frame stack and value buffer are empty. A
    /// thread with no frames succeeds at once, untouched; a nonempty thread
    /// with a zero budget is cancelled, untouched; a cancelled thread is
    /// still mid-run. Per-instruction behaviour is specified at `step`.
    pub fn run(&mut self, tid: usize, fuel: u64) -> (r: Result<(), VmError>)
        requires
            old(self).wf(),
        ensures
            final(self).wf(),
            final(self).classes@ == old(self).classes@,
            final(self).threads@.len() == old(self).threads@.len(),
            tid >= old(self).threads@.len() ==> r == Err::<(), VmError>(VmError::IndexOutOfRange)
                && *final(self) == *old(self),
            r matches Ok(u) ==> tid < old(self).threads@.len() && final(self).threads@[
                tid as int
            ].frames@.len() == 0 && final(self).threads@[tid as int].stack@.len() == 0,
            tid < old(self).threads@.len() && old(self).threads@[tid as int].frames@.len() == 0
                ==> r is Ok && final(self).threads@ == old(self).threads@ && final(self).class_rt@
                == old(self).class_rt@,
            tid < old(self).threads@.len() && old(self).threads@[tid as int].frames@.len() > 0
                && fuel == 0 ==> r == Err::<(), VmError>(VmError::Cancelled) && final(self).threads@ == old(self).threads@ && final(self).class_rt@ == old(self).class_rt@,
    {
        if tid >= self.threads.len() {
            return Err(VmError::IndexOutOfRange);
        }
        let mut th = self.threads.remove(tid);
        if th.frames.len() == 0 {
            let ghost thv = th;
            self.threads.insert(tid, th);
            proof {
                assert(self.threads@ =~= old(self).threads@.update(tid as int, thv));
                assert(self.threads@ =~= old(self).threads@);
            }
            return Ok(());
        }
        if fuel == 0 {
            let ghost thv = th;
            self.threads.insert(tid, th);
            proof {
                assert(self.threads@ =~= old(self).threads@.update(tid as int, thv));
                assert(self.threads@ =~= old(self).threads@);
            }
            return Err(VmError::Cancelled);
        }
        let mut fuel_left = fuel;
        let mut res: Result<(), VmError> = Ok(());
        loop
            invariant
                th.wf(classes_view(self.classes@)),
                self.class_rt@.len() == self.classes@.len(),
                self.classes@ == old(self).classes@,
                self.threads@ == old(self).threads@.remove(tid as int),
                tid < old(self).threads@.len(),
            ensures
                th.wf(classes_view(self.classes@)),
                self.class_rt@.len() == self.classes@.len(),
                self.classes@ == old(self).classes@,
                self.threads@ == old(self).threads@.remove(tid as int),
                res is Ok ==> th.frames@.len() == 0 && th.stack@.len() == 0,
            decreases fuel_left,
        {
            if th.frames.len() == 0 {
                res = Ok(());
                break ;
            }
            if fuel_left == 0 {
                res = Err(VmError::Cancelled);
                break ;
            }
            fuel_left = fuel_left - 1;
            match step(&self.classes, &mut self.class_rt, &mut th) {
                Ok(u) => {},
                Err(e) => {
                    res = Err(e);
                    break ;
                },
            }
        }
        let ghost thv = th;
        self.threads.insert(tid, th);
        proof {
            assert(self.threads@ =~= old(self).threads@.update(tid as int, thv));
            assert forall|t: int| 0 <= t < self.threads@.len() implies (
            #[trigger] self.threads@[t]).wf(classes_view(self.classes@)) by {
                if t != tid {
                    assert(self.threads@[t] == old(self).threads@[t]);
                }
            }
        }
        res
    }
}

} // verus!
