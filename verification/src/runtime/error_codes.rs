//! Runtime error taxonomy. A fault is carried as a value through the
//! interpreter and reported by the caller; the numeric value of its code is
//! the process exit code.

use vstd::prelude::*;

verus! {

#[derive(Clone, Copy, Debug, PartialEq, Eq, Structural)]
pub enum ErrorCode {
    /// No fault: the program ran to completion.
    NoError,
    /// An operator or coercion was applied to incompatible types, or an
    /// assignment target was not a reference.
    TypeError,
    /// Division or modulo by zero.
    ZeroDivision,
    /// A heap address or stack slot outside the live range was touched.
    InvalidMemoryAccess,
    /// An identifier was not found in any reachable scope.
    UndeclaredSymbol,
    /// `return` was executed with no active call frame.
    ReturnOutsideFunction,
    /// The interpreter's deliberate step budget ran out.
    ExecutionLimit,
}

impl ErrorCode {
    /// Numeric value of the code, used as the process exit code.
    pub fn value(&self) -> (res: u8)
        ensures
            res == self.spec_value(),
    {
        match self {
            ErrorCode::NoError => 0,
            ErrorCode::TypeError => 1,
            ErrorCode::ZeroDivision => 2,
            ErrorCode::InvalidMemoryAccess => 3,
            ErrorCode::UndeclaredSymbol => 4,
            ErrorCode::ReturnOutsideFunction => 5,
            ErrorCode::ExecutionLimit => 6,
        }
    }

    /// Numeric value of the code.
    pub open spec fn spec_value(self) -> u8 {
        match self {
            ErrorCode::NoError => 0,
            ErrorCode::TypeError => 1,
            ErrorCode::ZeroDivision => 2,
            ErrorCode::InvalidMemoryAccess => 3,
            ErrorCode::UndeclaredSymbol => 4,
            ErrorCode::ReturnOutsideFunction => 5,
            ErrorCode::ExecutionLimit => 6,
        }
    }

    /// Human-readable name of the code.
    pub fn name(&self) -> (res: &'static str)
        ensures
            self is NoError ==> res@ == "Ok"@,
            self is TypeError ==> res@ == "TypeError"@,
            self is ZeroDivision ==> res@ == "ZeroDivision"@,
            self is InvalidMemoryAccess ==> res@ == "InvalidMemoryAccess"@,
            self is UndeclaredSymbol ==> res@ == "UndeclaredSymbol"@,
            self is ReturnOutsideFunction ==> res@ == "ReturnOutsideFunction"@,
            self is ExecutionLimit ==> res@ == "ExecutionLimit"@,
    {
        match self {
            ErrorCode::NoError => "Ok",
            ErrorCode::TypeError => "TypeError",
            ErrorCode::ZeroDivision => "ZeroDivision",
            ErrorCode::InvalidMemoryAccess => "InvalidMemoryAccess",
            ErrorCode::UndeclaredSymbol => "UndeclaredSymbol",
            ErrorCode::ReturnOutsideFunction => "ReturnOutsideFunction",
            ErrorCode::ExecutionLimit => "ExecutionLimit",
        }
    }
}

/// A runtime fault: a code plus an optional human-readable message.
#[derive(Debug)]
pub struct RuntimeError {
    pub code: ErrorCode,
    pub message: Option<String>,
}

impl RuntimeError {
    /// The distinguished value meaning that no fault happened.
    pub fn no_error() -> (res: Self)
        ensures
            res.code == ErrorCode::NoError,
            res.message is None,
    {
        Self { code: ErrorCode::NoError, message: None }
    }

    /// A fault with an explanatory message.
    pub fn with_message(code: ErrorCode, message: String) -> (res: Self)
        ensures
            res.code == code,
            res.message == Some(message),
    {
        Self { code, message: Some(message) }
    }

    /// A fault from its parts.
    pub fn new(code: ErrorCode, message: Option<String>) -> (res: Self)
        ensures
            res.code == code,
            res.message == message,
    {
        Self { code, message }
    }
}

} // verus!
