//! The two-tier error model: compile-time errors and run-time faults.
//!
//! A compile-time error ([`Compile`]) is produced by the scanner/compiler and
//! prevents execution of the chunk.  A run-time fault ([`Runtime`]) is
//! detected by the virtual machine; it carries the source line of the
//! faulting instruction so a host can report it and keep running.
use vstd::prelude::*;
use vstd::std_specs::convert::IntoSpec;

verus! {

/// The kind of a run-time fault detected by the virtual machine.
///
/// Type mismatches and arithmetic faults are recoverable, user-facing
/// faults.  `StackUnderflow`, `BadConstant` and `MissingReturn` indicate an
/// ill-formed chunk (they are unreachable for chunks produced by a
/// successful compilation).
#[derive(Clone, Copy, Debug, PartialEq, Eq, Structural)]
pub enum FaultKind {
    AddType,
    SubType,
    MulType,
    DivType,
    NegateType,
    NotType,
    CompareType,
    DivideByZero,
    IntOverflow,
    StackUnderflow,
    BadConstant,
    MissingReturn,
}

/// The diagnostic message reported for each fault kind.
pub open spec fn fault_text(k: FaultKind) -> Seq<char> {
    match k {
        FaultKind::AddType => "TypeError: invalid operand types for addition"@,
        FaultKind::SubType => "TypeError: invalid operand types for subtraction"@,
        FaultKind::MulType => "TypeError: invalid operand types for multiplication"@,
        FaultKind::DivType => "TypeError: invalid operand types for division"@,
        FaultKind::NegateType => "TypeError: operand cannot be negated"@,
        FaultKind::NotType => "TypeError: operand does not support logical not"@,
        FaultKind::CompareType => "TypeError: operands cannot be ordered"@,
        FaultKind::DivideByZero => "RuntimeError: division by zero"@,
        FaultKind::IntOverflow => "RuntimeError: integer overflow"@,
        FaultKind::StackUnderflow => "InternalError: operand stack underflow"@,
        FaultKind::BadConstant => "InternalError: constant index out of range"@,
        FaultKind::MissingReturn => "InternalError: no return at end of code"@,
    }
}

/// The message reported for a fault kind, as executable text.
pub fn fault_message(k: FaultKind) -> (r: &'static str)
    ensures
        r@ == fault_text(k),
{
    match k {
        FaultKind::AddType => "TypeError: invalid operand types for addition",
        FaultKind::SubType => "TypeError: invalid operand types for subtraction",
        FaultKind::MulType => "TypeError: invalid operand types for multiplication",
        FaultKind::DivType => "TypeError: invalid operand types for division",
        FaultKind::NegateType => "TypeError: operand cannot be negated",
        FaultKind::NotType => "TypeError: operand does not support logical not",
        FaultKind::CompareType => "TypeError: operands cannot be ordered",
        FaultKind::DivideByZero => "RuntimeError: division by zero",
        FaultKind::IntOverflow => "RuntimeError: integer overflow",
        FaultKind::StackUnderflow => "InternalError: operand stack underflow",
        FaultKind::BadConstant => "InternalError: constant index out of range",
        FaultKind::MissingReturn => "InternalError: no return at end of code",
    }
}

/// A compile-time error: a message, the 1-based source line it was reported
/// on, and the lexeme of the offending token (empty at end of input).
#[derive(Debug)]
pub struct Compile {
    pub msg: String,
    pub line: usize,
    pub at: String,
}

impl Compile {
    pub fn new(msg: &str) -> (e: Self)
        ensures
            e.msg@ == msg@,
            e.line == 0,
            e.at@ == Seq::<char>::empty(),
    {
        Compile { msg: msg.to_owned(), line: 0, at: String::new() }
    }
}

/// A run-time fault: a message and the 1-based source line of the faulting
/// instruction.
#[derive(Debug)]
pub struct Runtime {
    pub msg: String,
    pub line: usize,
}

impl Runtime {
    pub fn new(msg: &str) -> (e: Self)
        ensures
            e.msg@ == msg@,
            e.line == 0,
    {
        Runtime { msg: msg.to_owned(), line: 0 }
    }
}

/// Either tier of error, as handed back to the host.
#[derive(Debug)]
pub enum RxError {
    Compile(Compile),
    Runtime(Runtime),
}

impl From<Compile> for RxError {
    fn from(value: Compile) -> (r: Self)
        ensures
            r == RxError::Compile(value),
    {
        RxError::Compile(value)
    }
}

impl vstd::std_specs::convert::FromSpecImpl<Compile> for RxError {
    open spec fn obeys_from_spec() -> bool {
        true
    }

    open spec fn from_spec(v: Compile) -> Self {
        RxError::Compile(v)
    }
}

impl From<Runtime> for RxError {
    fn from(value: Runtime) -> (r: Self)
        ensures
            r == RxError::Runtime(value),
    {
        RxError::Runtime(value)
    }
}

impl vstd::std_specs::convert::FromSpecImpl<Runtime> for RxError {
    open spec fn obeys_from_spec() -> bool {
        true
    }

    open spec fn from_spec(v: Runtime) -> Self {
        RxError::Runtime(v)
    }
}

impl RxError {
    /// Wraps either error tier, mirroring the `From` conversions.
    pub fn new<T: Into<RxError>>(err: T) -> (r: Self)
        ensures
            T::obeys_into_spec() ==> r == err.into_spec(),
    {
        err.into()
    }
}

} // verus!
