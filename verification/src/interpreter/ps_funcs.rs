use super::error::{Fault, RuntimeError};
use super::evaluate::eval_spec;
use super::float::{FloatFunction, FloatUnit};
use super::primitive::{agrees, lifted, Outcome, Primitive, Shape};
use crate::parser::parser::{ExprModel, ExpressionType, Values};
use crate::text::is_word;
use vstd::prelude::*;

verus! {

/// The builtin functions.
#[derive(Debug, PartialEq, Eq, Clone, Copy, Structural)]
pub enum Builtin {
    Sqrt,
    Sin,
    Cos,
    Tan,
    X,
    Y,
}

/// The builtin function of this name.
pub open spec fn builtin_spec(name: Seq<char>) -> Option<Builtin> {
    if name == "sqrt"@ {
        Some(Builtin::Sqrt)
    } else if name == "sin"@ {
        Some(Builtin::Sin)
    } else if name == "cos"@ {
        Some(Builtin::Cos)
    } else if name == "tan"@ {
        Some(Builtin::Tan)
    } else if name == "x"@ {
        Some(Builtin::X)
    } else if name == "y"@ {
        Some(Builtin::Y)
    } else {
        None
    }
}

/// The function of the `FloatUnit` that a numeric builtin function is.
pub open spec fn float_function(f: Builtin) -> FloatFunction {
    match f {
        Builtin::Sqrt => FloatFunction::Sqrt,
        Builtin::Sin => FloatFunction::Sin,
        Builtin::Cos => FloatFunction::Cos,
        _ => FloatFunction::Tan,
    }
}

/// The element at `at` of a vector.
pub open spec fn element_spec(arg: Shape, at: int) -> Outcome {
    match arg {
        Shape::IntVec(v) => if at < v.len() {
            Outcome::Value(Shape::I64(v[at]))
        } else {
            Outcome::Fault(Fault::VecTypeError)
        },
        Shape::FloatVec(v) => if at < v.len() {
            Outcome::Value(Shape::F64(v[at]))
        } else {
            Outcome::Fault(Fault::VecTypeError)
        },
        Shape::StrVec(v) => if at < v.len() {
            Outcome::Value(Shape::Str(v[at]))
        } else {
            Outcome::Fault(Fault::VecTypeError)
        },
        _ => Outcome::Fault(Fault::Generic),
    }
}

/// What the function `f` of the `FloatUnit` makes of a number: an integer
/// is converted first.
pub open spec fn numeric_spec<U: FloatUnit>(unit: U, f: FloatFunction, arg: Shape) -> Outcome {
    match arg {
        Shape::I64(_) | Shape::F64(_) => Outcome::Value(
            Shape::F64(unit.function_value(f, lifted(unit, arg))),
        ),
        _ => Outcome::Fault(Fault::Generic),
    }
}

/// What a builtin function makes of an argument: the root and the
/// trigonometric functions apply the function of the `FloatUnit` of their
/// name to a number, `x` and `y` take a vector to its first and second
/// element.
pub open spec fn apply_spec<U: FloatUnit>(unit: U, f: Builtin, arg: Shape) -> Outcome {
    match f {
        Builtin::X => element_spec(arg, 0),
        Builtin::Y => element_spec(arg, 1),
        _ => numeric_spec(unit, float_function(f), arg),
    }
}

/// Finds the builtin function called `name`.
pub fn builtin(name: &String) -> (r: Option<Builtin>)
    ensures
        r == builtin_spec(name@),
{
    if is_word(name, "sqrt") {
        Some(Builtin::Sqrt)
    } else if is_word(name, "sin") {
        Some(Builtin::Sin)
    } else if is_word(name, "cos") {
        Some(Builtin::Cos)
    } else if is_word(name, "tan") {
        Some(Builtin::Tan)
    } else if is_word(name, "x") {
        Some(Builtin::X)
    } else if is_word(name, "y") {
        Some(Builtin::Y)
    } else {
        None
    }
}

fn numeric<U: FloatUnit>(f: FloatFunction, arg: Primitive, unit: &U) -> (r: Result<Primitive, RuntimeError>)
    ensures
        agrees(numeric_spec(*unit, f, arg.shape()), r),
{
    match arg {
        Primitive::I64(i) => Ok(Primitive::F64(unit.function(f, unit.from_int(i)))),
        Primitive::F64(x) => Ok(Primitive::F64(unit.function(f, x))),
        _ => Err(RuntimeError::Generic),
    }
}

fn sqrt<U: FloatUnit>(arg: Primitive, unit: &U) -> (r: Result<Primitive, RuntimeError>)
    ensures
        agrees(apply_spec(*unit, Builtin::Sqrt, arg.shape()), r),
{
    numeric(FloatFunction::Sqrt, arg, unit)
}

fn sin<U: FloatUnit>(arg: Primitive, unit: &U) -> (r: Result<Primitive, RuntimeError>)
    ensures
        agrees(apply_spec(*unit, Builtin::Sin, arg.shape()), r),
{
    numeric(FloatFunction::Sin, arg, unit)
}

fn cos<U: FloatUnit>(arg: Primitive, unit: &U) -> (r: Result<Primitive, RuntimeError>)
    ensures
        agrees(apply_spec(*unit, Builtin::Cos, arg.shape()), r),
{
    numeric(FloatFunction::Cos, arg, unit)
}

fn tan<U: FloatUnit>(arg: Primitive, unit: &U) -> (r: Result<Primitive, RuntimeError>)
    ensures
        agrees(apply_spec(*unit, Builtin::Tan, arg.shape()), r),
{
    numeric(FloatFunction::Tan, arg, unit)
}

fn element(arg: Primitive, at: usize) -> (r: Result<Primitive, RuntimeError>)
    ensures
        agrees(element_spec(arg.shape(), at as int), r),
{
    match arg {
        Primitive::IntVec(v) => if at < v.len() {
            Ok(Primitive::I64(v[at]))
        } else {
            Err(RuntimeError::VecTypeError)
        },
        Primitive::FloatVec(v) => if at < v.len() {
            Ok(Primitive::F64(v[at]))
        } else {
            Err(RuntimeError::VecTypeError)
        },
        Primitive::StrVec(v) => if at < v.len() {
            Ok(Primitive::String(v[at].clone()))
        } else {
            Err(RuntimeError::VecTypeError)
        },
        _ => Err(RuntimeError::Generic),
    }
}

fn access_x(arg: Primitive) -> (r: Result<Primitive, RuntimeError>)
    ensures
        agrees(element_spec(arg.shape(), 0), r),
{
    element(arg, 0)
}

fn access_y(arg: Primitive) -> (r: Result<Primitive, RuntimeError>)
    ensures
        agrees(element_spec(arg.shape(), 1), r),
{
    element(arg, 1)
}

/// Applies the builtin function `f` to a value.
pub fn apply<U: FloatUnit>(f: Builtin, arg: Primitive, unit: &U) -> (r: Result<Primitive, RuntimeError>)
    ensures
        agrees(apply_spec(*unit, f, arg.shape()), r),
{
    match f {
        Builtin::Sqrt => sqrt(arg, unit),
        Builtin::Sin => sin(arg, unit),
        Builtin::Cos => cos(arg, unit),
        Builtin::Tan => tan(arg, unit),
        Builtin::X => access_x(arg),
        Builtin::Y => access_y(arg),
    }
}

/// Calls the builtin function `fn_name` on the value of `arg` in the scope
/// `values`. A name that no builtin function has is an error, whatever
/// the argument.
pub fn dispatch_func<U: FloatUnit>(
    fn_name: String,
    values: &Values,
    arg: Box<ExpressionType>,
    unit: &U,
) -> (r: Result<Primitive, RuntimeError>)
    ensures
        agrees(
            eval_spec(
                *unit,
                ExprModel::Call(fn_name@, Box::new(arg.model())),
                values.model(),
                values.model().len(),
            ),
            r,
        ),
{
    match builtin(&fn_name) {
        None => Err(RuntimeError::UnknownFunction(fn_name)),
        Some(f) => match arg.eval_bounded(values, unit, values.len()) {
            Ok(v) => apply(f, v, unit),
            Err(e) => Err(e),
        },
    }
}

} // verus!
