//! The error taxonomy that commands and protocol machines surface to callers.

use vstd::prelude::*;

verus! {

/// Domain error kinds, as the operator console reports them.
#[derive(Debug, Clone, Copy, PartialEq, Eq, Structural)]
pub enum ErrorType {
    /// Bus traffic carried an opcode the core does not recognize.
    A3OpCodeUnknown,
    /// A frame arrived without an opcode byte.
    A3OpCodeMissing,
    /// A registry lookup missed.
    A3ModuleNotFound,
    /// Unknown module type or missing property definition.
    A3SchemaError,
    /// A stream id was already allocated, or the wire pool is exhausted.
    A3StreamConflict,
    /// An operator-supplied value failed its type parse.
    A3InvalidValue,
    /// The operator issued a command the console does not know.
    UserCommandUnknown,
    /// A user command that needs a stream arrived without one.
    UserCommandStreamIdMissing,
    /// A user command carried parameters that do not fit the command.
    UserCommandInvalidRequest,
    /// An awaited response exceeded its deadline.
    Timeout,
    /// Unclassified internal fault.
    RuntimeError,
}

/// An error kind together with a diagnostic message.
#[derive(Debug, Clone)]
pub struct AppError {
    /// The kind of the error.
    pub error_type: ErrorType,
    /// Human-readable diagnostic; empty for timeouts.
    pub message: String,
}

impl AppError {
    /// Builds an error of the given kind with the given message.
    pub fn new(error_type: ErrorType, message: String) -> (r: Self)
        ensures
            r.error_type == error_type,
            r.message@ == message@,
    {
        Self { error_type, message }
    }

    /// The error that an exceeded deadline surfaces.
    pub fn timeout() -> (r: Self)
        ensures
            r.error_type == ErrorType::Timeout,
            r.message@ == Seq::<char>::empty(),
    {
        Self { error_type: ErrorType::Timeout, message: String::new() }
    }

    /// An unclassified internal fault with a diagnostic message.
    pub fn runtime(message: &str) -> (r: Self)
        ensures
            r.error_type == ErrorType::RuntimeError,
            r.message@ == message@,
    {
        Self { error_type: ErrorType::RuntimeError, message: message.to_owned() }
    }
}

} // verus!
