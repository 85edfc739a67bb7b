use vstd::prelude::*;

verus! {

/// The failure kinds the virtual machine reports.
///
/// Parse- and decode-time kinds are returned to the caller; runtime kinds
/// either traverse the exception table of the executing method (integer
/// division by zero) or terminate the current `run` invocation.
#[derive(Clone, Copy, Debug, PartialEq, Eq, Structural)]
pub enum VmError {
    /// A structural violation of the binary class-file format: bad magic,
    /// out-of-range constant-pool index, UTF-8 decode failure, a length that
    /// overruns the input, trailing bytes, or a bad cross-reference found
    /// while resolving the constant pool.
    MalformedClassFile,
    /// A type-descriptor string violates the descriptor grammar or exceeds
    /// its bounds.
    MalformedDescriptor,
    /// An unknown opcode, or an instruction truncated by the end of the code
    /// array.
    MalformedBytecode,
    /// A constant-pool or slot index beyond bounds, or an operand-stack
    /// access outside the region a frame reserved.
    IndexOutOfRange,
    /// The thread's value buffer cannot hold another frame.
    StackOverflow,
    /// An attempt to execute a method that has no code attribute.
    NoCode,
    /// No class of the requested internal name is registered.
    ClassNotFound,
    /// The class has no method under the requested name and descriptor.
    MethodNotFound,
    /// The class has no field under the requested name.
    FieldNotFound,
    /// Integer division or remainder with a zero divisor; raised as a
    /// bytecode-level exception and catchable by an exception-table entry.
    ArithmeticException,
    /// Re-entrant class initialization was detected.
    CircularInitialization,
    /// A bytecode exception unwound past the outermost frame.
    UncaughtException,
    /// The cooperative tick budget handed to `run` was exhausted.
    Cancelled,
    /// An operand or local slot held a value of a different kind than the
    /// instruction expects.
    InvalidOperand,
    /// The decoded instruction is outside the executable core (object
    /// allocation, instance fields, virtual dispatch, floating-point
    /// arithmetic).
    UnsupportedOp,
}

} // verus!
