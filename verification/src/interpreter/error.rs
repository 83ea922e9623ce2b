use super::primitive::{Primitive, Shape};
use crate::parser::types::Op;
use vstd::prelude::*;

verus! {

/// Why an expression has no value.
#[derive(Debug, PartialEq, Clone)]
pub enum RuntimeError {
    /// A builtin function was applied to a value it is not defined on.
    Generic,
    /// The variable is bound nowhere in the scope.
    VarNotDef(String),
    /// The expression is a block, a duration, a range or empty.
    ComputeTypeError,
    /// The operand of a negation is no number, or is the least integer.
    NegateNonInt,
    /// The operands of vector arithmetic are not numeric vectors, or an
    /// element of the result is no 64-bit integer.
    VecArithTypeError,
    /// A vector literal is empty or does not start with an integer, a
    /// floating-point number or a string; or a vector is too short for
    /// the element that was asked of it.
    VecTypeError,
    /// The operator is not defined on these two operands.
    OperatorTypeError(Op, Primitive, Primitive),
    /// A guard has a value that is no boolean.
    CondNotBoolError,
    /// No builtin function has this name.
    UnknownFunction(String),
    /// The definition of the variable leads through more variables than
    /// the evaluation follows, as one does that leads back to itself.
    CyclicDefinition(String),
}

/// Why a pattern has no timeline.
#[derive(Debug, PartialEq, Clone)]
pub enum CompileError {
    /// A duration is no whole number of frames, no number of seconds, or
    /// comes to no number of frames of `0 ..= u32::MAX`.
    MalformedDuration,
    /// A wait takes the clock past `u32::MAX`.
    ClockOverflow,
    /// A block that is repeated until the clock reaches a frame does not
    /// advance the clock.
    StalledReplay,
    /// A loop has more combinations than can be collected.
    TooManyCombinations,
    /// The guard of a loop cannot be evaluated.
    Guard(RuntimeError),
}

/// Mathematical model of a `CompileError`.
pub enum CompileFault {
    MalformedDuration,
    ClockOverflow,
    StalledReplay,
    TooManyCombinations,
    Guard(Fault),
}

/// Mathematical model of a `RuntimeError`.
pub enum Fault {
    Generic,
    VarNotDef(Seq<char>),
    ComputeTypeError,
    NegateNonInt,
    VecArithTypeError,
    VecTypeError,
    OperatorTypeError(Op, Shape, Shape),
    CondNotBoolError,
    UnknownFunction(Seq<char>),
    CyclicDefinition(Seq<char>),
}

impl CompileError {
    /// The mathematical model of this.
    pub open spec fn fault(&self) -> CompileFault {
        match self {
            CompileError::MalformedDuration => CompileFault::MalformedDuration,
            CompileError::ClockOverflow => CompileFault::ClockOverflow,
            CompileError::StalledReplay => CompileFault::StalledReplay,
            CompileError::TooManyCombinations => CompileFault::TooManyCombinations,
            CompileError::Guard(e) => CompileFault::Guard(e.fault()),
        }
    }
}

impl RuntimeError {
    /// The mathematical model of this.
    pub open spec fn fault(&self) -> Fault {
        match self {
            RuntimeError::Generic => Fault::Generic,
            RuntimeError::VarNotDef(s) => Fault::VarNotDef(s@),
            RuntimeError::ComputeTypeError => Fault::ComputeTypeError,
            RuntimeError::NegateNonInt => Fault::NegateNonInt,
            RuntimeError::VecArithTypeError => Fault::VecArithTypeError,
            RuntimeError::VecTypeError => Fault::VecTypeError,
            RuntimeError::OperatorTypeError(op, l, r) => Fault::OperatorTypeError(*op, l.shape(), r.shape()),
            RuntimeError::CondNotBoolError => Fault::CondNotBoolError,
            RuntimeError::UnknownFunction(s) => Fault::UnknownFunction(s@),
            RuntimeError::CyclicDefinition(s) => Fault::CyclicDefinition(s@),
        }
    }
}

} // verus!
