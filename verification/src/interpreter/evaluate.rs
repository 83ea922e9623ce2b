use super::error::{Fault, RuntimeError};
use super::float::{FloatBinary, FloatCompare, FloatFunction, FloatUnit};
use super::primitive::{
    agrees, fits_i64, is_numeric_vec, lifted, primitive_vec_arithmetic, vec_arith_spec, Outcome,
    Primitive, PrimitiveVecOp, Shape,
};
use super::ps_funcs::{apply, apply_spec, builtin, builtin_spec};
use crate::parser::parser::{
    exprs_model, lookup, ArithmeticExpression, CondModel, Condition, ExprModel, ExpressionType, ScopeModel,
    UnaryOperator, Values,
};
use crate::parser::types::Op;
use vstd::arithmetic::power::pow;
use vstd::prelude::*;
use vstd::string::StringExecFns;

verus! {

/// The absolute value of `a`.
pub open spec fn magnitude(a: int) -> nat {
    if a < 0 {
        (-a) as nat
    } else {
        a as nat
    }
}

/// The quotient of `a` by `b`, rounded towards zero.
pub open spec fn trunc_div(a: int, b: int) -> int {
    let q = magnitude(a) / magnitude(b);
    if (a < 0) != (b < 0) {
        -q
    } else {
        q as int
    }
}

/// Whether a value is an integer or a floating-point number.
pub open spec fn is_number(s: Shape) -> bool {
    s is I64 || s is F64
}

/// The error of an operator that is not defined on its operands.
pub open spec fn undefined(op: Op, a: Shape, b: Shape) -> Outcome {
    Outcome::Fault(Fault::OperatorTypeError(op, a, b))
}

/// The integer `x` as the result of `op`, if it is a 64-bit integer.
pub open spec fn checked(op: Op, a: Shape, b: Shape, x: int) -> Outcome {
    if fits_i64(x) {
        Outcome::Value(Shape::I64(x as i64))
    } else {
        undefined(op, a, b)
    }
}

/// The elementwise operation of an arithmetic operator.
pub open spec fn vec_op(op: Op) -> PrimitiveVecOp {
    match op {
        Op::Add => PrimitiveVecOp::Add,
        Op::Sub => PrimitiveVecOp::Sub,
        Op::Mul => PrimitiveVecOp::Mul,
        _ => PrimitiveVecOp::Div,
    }
}

/// The floating-point operation of an arithmetic operator.
pub open spec fn float_op_spec(op: Op) -> FloatBinary {
    match op {
        Op::Add => FloatBinary::Add,
        Op::Sub => FloatBinary::Sub,
        Op::Mul => FloatBinary::Mul,
        Op::Div => FloatBinary::Div,
        _ => FloatBinary::Pow,
    }
}

/// The floating-point comparison of a comparison operator.
pub open spec fn float_compare_spec(op: Op) -> FloatCompare {
    match op {
        Op::GT => FloatCompare::GT,
        Op::GTE => FloatCompare::GTE,
        Op::LT => FloatCompare::LT,
        _ => FloatCompare::LTE,
    }
}

/// What a binary operator makes of two values.
///
/// Two integers give an integer (an error where the result is no 64-bit
/// integer, or the divisor is zero, or the exponent is negative or over
/// `u32::MAX`). A number with a floating-point number gives what the
/// `FloatUnit` makes of the two in this order, the integer converted.
/// Two strings are joined by `+`; two numeric vectors go elementwise. The
/// logical operators take two booleans. An order comparison of two
/// integers is decided here, one that involves a floating-point number by
/// the `FloatUnit`, on the two in this order.
pub open spec fn binary_spec<U: FloatUnit>(unit: U, op: Op, a: Shape, b: Shape) -> Outcome {
    match op {
        Op::Add | Op::Sub | Op::Mul | Op::Div => match (a, b) {
            (Shape::I64(l), Shape::I64(r)) => match op {
                Op::Add => checked(op, a, b, l + r),
                Op::Sub => checked(op, a, b, l - r),
                Op::Mul => checked(op, a, b, l * r),
                _ => if r == 0 {
                    undefined(op, a, b)
                } else {
                    checked(op, a, b, trunc_div(l as int, r as int))
                },
            },
            (Shape::Str(l), Shape::Str(r)) => if op == Op::Add {
                Outcome::Value(Shape::Str(l + r))
            } else {
                undefined(op, a, b)
            },
            _ => if is_number(a) && is_number(b) {
                Outcome::Value(
                    Shape::F64(
                        unit.binary_value(float_op_spec(op), lifted(unit, a), lifted(unit, b)),
                    ),
                )
            } else if is_numeric_vec(a) && is_numeric_vec(b) {
                vec_arith_spec(unit, vec_op(op), a, b)
            } else {
                undefined(op, a, b)
            },
        },
        Op::Exp => match (a, b) {
            (Shape::I64(l), Shape::I64(r)) => if 0 <= r <= u32::MAX {
                checked(op, a, b, pow(l as int, r as nat))
            } else {
                undefined(op, a, b)
            },
            _ => if is_number(a) && is_number(b) {
                Outcome::Value(
                    Shape::F64(unit.binary_value(FloatBinary::Pow, lifted(unit, a), lifted(unit, b))),
                )
            } else {
                undefined(op, a, b)
            },
        },
        Op::And | Op::Or | Op::Test => match (a, b) {
            (Shape::Bool(l), Shape::Bool(r)) => Outcome::Value(
                Shape::Bool(
                    match op {
                        Op::And => l && r,
                        Op::Or => l || r,
                        _ => l == r,
                    },
                ),
            ),
            _ => undefined(op, a, b),
        },
        Op::GT | Op::GTE | Op::LT | Op::LTE => match (a, b) {
            (Shape::I64(l), Shape::I64(r)) => Outcome::Value(
                Shape::Bool(
                    match op {
                        Op::GT => l > r,
                        Op::GTE => l >= r,
                        Op::LT => l < r,
                        _ => l <= r,
                    },
                ),
            ),
            _ => if is_number(a) && is_number(b) {
                Outcome::Value(
                    Shape::Bool(
                        unit.compare_value(
                            float_compare_spec(op),
                            lifted(unit, a),
                            lifted(unit, b),
                        ),
                    ),
                )
            } else {
                undefined(op, a, b)
            },
        },
    }
}

/// What negation makes of a value.
pub open spec fn negate_spec<U: FloatUnit>(unit: U, a: Shape) -> Outcome {
    match a {
        Shape::I64(i) => if i == i64::MIN {
            Outcome::Fault(Fault::NegateNonInt)
        } else {
            Outcome::Value(Shape::I64((-i) as i64))
        },
        Shape::F64(x) => Outcome::Value(Shape::F64(unit.function_value(FloatFunction::Negate, x))),
        _ => Outcome::Fault(Fault::NegateNonInt),
    }
}

/// The vector that a literal with this first element starts.
pub open spec fn start_vec(first: Shape) -> Option<Shape> {
    match first {
        Shape::I64(i) => Some(Shape::IntVec(seq![i])),
        Shape::F64(x) => Some(Shape::FloatVec(seq![x])),
        Shape::Str(s) => Some(Shape::StrVec(seq![s])),
        _ => None,
    }
}

/// The vector `acc` after a further element of the literal: an element of
/// its kind is added, any other is dropped.
pub open spec fn extend_vec(acc: Shape, v: Shape) -> Shape {
    match (acc, v) {
        (Shape::IntVec(a), Shape::I64(i)) => Shape::IntVec(a.push(i)),
        (Shape::FloatVec(a), Shape::F64(x)) => Shape::FloatVec(a.push(x)),
        (Shape::StrVec(a), Shape::Str(s)) => Shape::StrVec(a.push(s)),
        _ => acc,
    }
}

/// The value of an expression in a scope.
///
/// `budget` bounds how many variables are followed one into the
/// definition of the other; where it runs out, the value is the error
/// `CyclicDefinition`.
pub open spec fn eval_spec<U: FloatUnit>(unit: U, e: ExprModel, s: ScopeModel, budget: nat) -> Outcome
    decreases budget, e,
{
    match e {
        ExprModel::Int(i) => Outcome::Value(Shape::I64(i)),
        ExprModel::Float(x) => Outcome::Value(Shape::F64(x)),
        ExprModel::Str(t) => Outcome::Value(Shape::Str(t)),
        ExprModel::Variable(name) => match lookup(s, name) {
            None => Outcome::Fault(Fault::VarNotDef(name)),
            Some(d) => if budget == 0 {
                Outcome::Fault(Fault::CyclicDefinition(name))
            } else {
                eval_spec(unit, d, s, (budget - 1) as nat)
            },
        },
        ExprModel::Vector(es) => if es.len() == 0 {
            Outcome::Fault(Fault::VecTypeError)
        } else {
            match eval_spec(unit, es[0], s, budget) {
                Outcome::Value(first) => match start_vec(first) {
                    Some(acc) => gather_spec(unit, es, s, budget, 1, acc),
                    None => Outcome::Fault(Fault::VecTypeError),
                },
                other => other,
            }
        },
        ExprModel::Negate(a) => match eval_spec(unit, *a, s, budget) {
            Outcome::Value(v) => negate_spec(unit, v),
            other => other,
        },
        ExprModel::Call(name, a) => match builtin_spec(name) {
            None => Outcome::Fault(Fault::UnknownFunction(name)),
            Some(f) => match eval_spec(unit, *a, s, budget) {
                Outcome::Value(v) => apply_spec(unit, f, v),
                other => other,
            },
        },
        ExprModel::Binary(op, l, r) => match eval_spec(unit, *l, s, budget) {
            Outcome::Value(a) => match eval_spec(unit, *r, s, budget) {
                Outcome::Value(b) => binary_spec(unit, op, a, b),
                other => other,
            },
            other => other,
        },
        ExprModel::Range(_, _) | ExprModel::Block(_) | ExprModel::Duration(_) | ExprModel::Nothing => Outcome::Fault(
            Fault::ComputeTypeError,
        ),
    }
}

/// The vector literal `es` from its element `i` on, when the elements
/// before it have given `acc`.
pub open spec fn gather_spec<U: FloatUnit>(
    unit: U,
    es: Seq<ExprModel>,
    s: ScopeModel,
    budget: nat,
    i: nat,
    acc: Shape,
) -> Outcome
    decreases budget, es, es.len() - i,
{
    if i >= es.len() {
        Outcome::Value(acc)
    } else {
        match eval_spec(unit, es[i as int], s, budget) {
            Outcome::Value(v) => gather_spec(unit, es, s, budget, i + 1, extend_vec(acc, v)),
            other => other,
        }
    }
}

/// The value of a guard: an absent one holds, `when` holds where its
/// expression is true, `unless` where it is false.
pub open spec fn cond_spec<U: FloatUnit>(unit: U, c: CondModel, s: ScopeModel, budget: nat) -> Outcome {
    match c {
        CondModel::Always => Outcome::Value(Shape::Bool(true)),
        CondModel::When(e) => match eval_spec(unit, e, s, budget) {
            Outcome::Value(Shape::Bool(b)) => Outcome::Value(Shape::Bool(b)),
            Outcome::Value(_) => Outcome::Fault(Fault::CondNotBoolError),
            other => other,
        },
        CondModel::Unless(e) => match eval_spec(unit, e, s, budget) {
            Outcome::Value(Shape::Bool(b)) => Outcome::Value(Shape::Bool(!b)),
            Outcome::Value(_) => Outcome::Fault(Fault::CondNotBoolError),
            other => other,
        },
    }
}

/// Two evaluations of one expression in one scope by one unit give the
/// same value or the same error.
pub proof fn lemma_eval_repeatable<U: FloatUnit>(
    unit: U,
    e: ExprModel,
    s: ScopeModel,
    budget: nat,
    first: Result<Primitive, RuntimeError>,
    second: Result<Primitive, RuntimeError>,
)
    requires
        agrees(eval_spec(unit, e, s, budget), first),
        agrees(eval_spec(unit, e, s, budget), second),
    ensures
        match (first, second) {
            (Ok(p), Ok(q)) => p.shape() == q.shape(),
            (Err(x), Err(y)) => x.fault() == y.fault(),
            _ => false,
        },
{
}

/// A literal has the same value in every scope and with every unit:
/// itself.
pub proof fn lemma_literal_value<U: FloatUnit>(unit: U, e: ExprModel, s: ScopeModel, budget: nat)
    requires
        e is Int || e is Float || e is Str,
    ensures
        eval_spec(unit, e, s, budget) == match e {
            ExprModel::Int(i) => Outcome::Value(Shape::I64(i)),
            ExprModel::Str(t) => Outcome::Value(Shape::Str(t)),
            ExprModel::Float(x) => Outcome::Value(Shape::F64(x)),
            _ => Outcome::Fault(Fault::ComputeTypeError),
        },
{
}

proof fn lemma_pow_small_base(b: int, n: nat)
    requires
        -1 <= b <= 1,
    ensures
        -1 <= pow(b, n) <= 1,
    decreases n,
{
    reveal(pow);
    if n > 0 {
        lemma_pow_small_base(b, (n - 1) as nat);
        let x = pow(b, (n - 1) as nat);
        assert(-1 <= b * x <= 1) by (nonlinear_arith)
            requires
                -1 <= b <= 1,
                -1 <= x <= 1,
        ;
    }
}

proof fn lemma_pow_stays_out(b: int, m: nat, n: nat)
    requires
        m <= n,
        !fits_i64(pow(b, m)),
    ensures
        !fits_i64(pow(b, n)),
    decreases n,
{
    if -1 <= b <= 1 {
        lemma_pow_small_base(b, m);
    } else if n > m {
        lemma_pow_stays_out(b, m, (n - 1) as nat);
        reveal(pow);
        let x = pow(b, (n - 1) as nat);
        assert(b * x > 0x7fff_ffff_ffff_ffff || b * x < -0x8000_0000_0000_0000) by (nonlinear_arith)
            requires
                b >= 2 || b <= -2,
                x > 0x7fff_ffff_ffff_ffff || x < -0x8000_0000_0000_0000,
        ;
    }
}

/// The quotient rounded towards zero, where there is one that is a
/// 64-bit integer.
fn div_trunc(a: i64, b: i64) -> (r: Option<i64>)
    ensures
        r == if b != 0 && fits_i64(trunc_div(a as int, b as int)) {
            Some(trunc_div(a as int, b as int) as i64)
        } else {
            None
        },
{
    if b == 0 {
        return None;
    }
    let ua: u64 = if a < 0 {
        (-(a as i128)) as u64
    } else {
        a as u64
    };
    let ub: u64 = if b < 0 {
        (-(b as i128)) as u64
    } else {
        b as u64
    };
    let q: u64 = ua / ub;
    assert(q <= ua) by (nonlinear_arith)
        requires
            q == ua / ub,
            ub > 0,
    ;
    if (a < 0) != (b < 0) {
        Some((-(q as i128)) as i64)
    } else if q > 0x7fff_ffff_ffff_ffff {
        None
    } else {
        Some(q as i64)
    }
}

/// `b` to the power `e`, where that is a 64-bit integer.
fn int_pow(b: i64, e: u32) -> (r: Option<i64>)
    ensures
        r == if fits_i64(pow(b as int, e as nat)) {
            Some(pow(b as int, e as nat) as i64)
        } else {
            None
        },
{
    let mut acc: i64 = 1;
    let mut k: u32 = 0;
    proof {
        reveal(pow);
    }
    while k < e
        invariant
            k <= e,
            acc == pow(b as int, k as nat),
        decreases e - k,
    {
        proof {
            reveal(pow);
        }
        match acc.checked_mul(b) {
            Some(x) => {
                assert(acc * b == b * acc) by (nonlinear_arith);
                acc = x;
            },
            None => {
                assert(acc * b == b * acc) by (nonlinear_arith);
                proof {
                    lemma_pow_stays_out(b as int, (k + 1) as nat, e as nat);
                }
                return None;
            },
        }
        k += 1;
    }
    Some(acc)
}

fn float_op(op: Op) -> (r: FloatBinary)
    requires
        op == Op::Add || op == Op::Sub || op == Op::Mul || op == Op::Div || op == Op::Exp,
    ensures
        r == float_op_spec(op),
{
    match op {
        Op::Add => FloatBinary::Add,
        Op::Sub => FloatBinary::Sub,
        Op::Mul => FloatBinary::Mul,
        Op::Div => FloatBinary::Div,
        _ => FloatBinary::Pow,
    }
}

fn is_vec(p: &Primitive) -> (r: bool)
    ensures
        r == is_numeric_vec(p.shape()),
{
    match p {
        Primitive::IntVec(_) => true,
        Primitive::FloatVec(_) => true,
        _ => false,
    }
}

fn arithmetic<U: FloatUnit>(op: Op, l: Primitive, r: Primitive, unit: &U) -> (out: Result<
    Primitive,
    RuntimeError,
>)
    requires
        op == Op::Add || op == Op::Sub || op == Op::Mul || op == Op::Div || op == Op::Exp,
    ensures
        agrees(binary_spec(*unit, op, l.shape(), r.shape()), out),
{
    match (l, r) {
        (Primitive::I64(a), Primitive::I64(b)) => {
            let x = match op {
                Op::Add => a.checked_add(b),
                Op::Sub => a.checked_sub(b),
                Op::Mul => a.checked_mul(b),
                Op::Div => div_trunc(a, b),
                _ => if 0 <= b && b <= 0xffff_ffff {
                    int_pow(a, b as u32)
                } else {
                    None
                },
            };
            match x {
                Some(x) => Ok(Primitive::I64(x)),
                None => Err(RuntimeError::OperatorTypeError(op, Primitive::I64(a), Primitive::I64(b))),
            }
        },
        (Primitive::F64(a), Primitive::F64(b)) => Ok(Primitive::F64(unit.binary(float_op(op), a, b))),
        (Primitive::I64(a), Primitive::F64(b)) => Ok(
            Primitive::F64(unit.binary(float_op(op), unit.from_int(a), b)),
        ),
        (Primitive::F64(a), Primitive::I64(b)) => Ok(
            Primitive::F64(unit.binary(float_op(op), a, unit.from_int(b))),
        ),
        (Primitive::String(a), Primitive::String(b)) => {
            if op == Op::Add {
                Ok(Primitive::String(a.concat(b.as_str())))
            } else {
                Err(RuntimeError::OperatorTypeError(op, Primitive::String(a), Primitive::String(b)))
            }
        },
        (l, r) => {
            if op != Op::Exp && is_vec(&l) && is_vec(&r) {
                let vop = match op {
                    Op::Add => PrimitiveVecOp::Add,
                    Op::Sub => PrimitiveVecOp::Sub,
                    Op::Mul => PrimitiveVecOp::Mul,
                    _ => PrimitiveVecOp::Div,
                };
                primitive_vec_arithmetic(vop, l, r, unit)
            } else {
                Err(RuntimeError::OperatorTypeError(op, l, r))
            }
        },
    }
}

fn logic<U: FloatUnit>(op: Op, l: Primitive, r: Primitive, unit: &U) -> (out: Result<
    Primitive,
    RuntimeError,
>)
    requires
        op == Op::And || op == Op::Or || op == Op::Test,
    ensures
        agrees(binary_spec(*unit, op, l.shape(), r.shape()), out),
{
    match (l, r) {
        (Primitive::Bool(a), Primitive::Bool(b)) => Ok(
            Primitive::Bool(
                match op {
                    Op::And => a && b,
                    Op::Or => a || b,
                    _ => a == b,
                },
            ),
        ),
        (l, r) => Err(RuntimeError::OperatorTypeError(op, l, r)),
    }
}

fn comparison<U: FloatUnit>(op: Op, l: Primitive, r: Primitive, unit: &U) -> (out: Result<
    Primitive,
    RuntimeError,
>)
    requires
        op == Op::GT || op == Op::GTE || op == Op::LT || op == Op::LTE,
    ensures
        agrees(binary_spec(*unit, op, l.shape(), r.shape()), out),
{
    let cmp = match op {
        Op::GT => FloatCompare::GT,
        Op::GTE => FloatCompare::GTE,
        Op::LT => FloatCompare::LT,
        _ => FloatCompare::LTE,
    };
    match (l, r) {
        (Primitive::I64(a), Primitive::I64(b)) => Ok(
            Primitive::Bool(
                match op {
                    Op::GT => a > b,
                    Op::GTE => a >= b,
                    Op::LT => a < b,
                    _ => a <= b,
                },
            ),
        ),
        (Primitive::F64(a), Primitive::F64(b)) => Ok(Primitive::Bool(unit.compare(cmp, a, b))),
        (Primitive::I64(a), Primitive::F64(b)) => Ok(
            Primitive::Bool(unit.compare(cmp, unit.from_int(a), b)),
        ),
        (Primitive::F64(a), Primitive::I64(b)) => Ok(
            Primitive::Bool(unit.compare(cmp, a, unit.from_int(b))),
        ),
        (l, r) => Err(RuntimeError::OperatorTypeError(op, l, r)),
    }
}

/// Applies a binary operator to two values, `l` on the left.
pub fn binary<U: FloatUnit>(op: Op, l: Primitive, r: Primitive, unit: &U) -> (out: Result<
    Primitive,
    RuntimeError,
>)
    ensures
        agrees(binary_spec(*unit, op, l.shape(), r.shape()), out),
{
    match op {
        Op::Add | Op::Sub | Op::Mul | Op::Div | Op::Exp => arithmetic(op, l, r, unit),
        Op::And | Op::Or | Op::Test => logic(op, l, r, unit),
        _ => comparison(op, l, r, unit),
    }
}

/// Negates a number.
pub fn negate<U: FloatUnit>(a: Primitive, unit: &U) -> (out: Result<Primitive, RuntimeError>)
    ensures
        agrees(negate_spec(*unit, a.shape()), out),
{
    match a {
        Primitive::F64(x) => Ok(Primitive::F64(unit.function(FloatFunction::Negate, x))),
        Primitive::I64(i) => if i == i64::MIN {
            Err(RuntimeError::NegateNonInt)
        } else {
            Ok(Primitive::I64(-i))
        },
        _ => Err(RuntimeError::NegateNonInt),
    }
}

/// Starts the vector of a literal from its first element.
fn start(first: Primitive) -> (r: Option<Primitive>)
    ensures
        match r {
            Some(p) => start_vec(first.shape()) == Some(p.shape()),
            None => start_vec(first.shape()).is_none(),
        },
{
    match first {
        Primitive::I64(i) => {
            let mut v: Vec<i64> = Vec::new();
            v.push(i);
            assert(v@ =~= seq![i]);
            Some(Primitive::IntVec(v))
        },
        Primitive::F64(x) => {
            let mut v: Vec<u64> = Vec::new();
            v.push(x);
            let p = Primitive::FloatVec(v);
            assert(p.shape()->FloatVec_0 =~= seq![x]);
            Some(p)
        },
        Primitive::String(s) => {
            let mut v: Vec<String> = Vec::new();
            let ghost t = s@;
            v.push(s);
            let p = Primitive::StrVec(v);
            assert(p.shape()->StrVec_0 =~= seq![t]);
            Some(p)
        },
        _ => None,
    }
}

/// Adds a further element of a literal to its vector.
fn extend(acc: Primitive, v: Primitive) -> (r: Primitive)
    ensures
        r.shape() == extend_vec(acc.shape(), v.shape()),
{
    match (acc, v) {
        (Primitive::IntVec(a), Primitive::I64(i)) => {
            let mut a = a;
            a.push(i);
            Primitive::IntVec(a)
        },
        (Primitive::FloatVec(a), Primitive::F64(x)) => {
            let mut a = a;
            let ghost before = Primitive::FloatVec(a).shape()->FloatVec_0;
            a.push(x);
            let p = Primitive::FloatVec(a);
            assert(p.shape()->FloatVec_0 =~= before.push(x));
            p
        },
        (Primitive::StrVec(a), Primitive::String(s)) => {
            let mut a = a;
            let ghost before = Primitive::StrVec(a).shape()->StrVec_0;
            let ghost t = s@;
            a.push(s);
            let p = Primitive::StrVec(a);
            assert(p.shape()->StrVec_0 =~= before.push(t));
            p
        },
        (acc, _) => acc,
    }
}

impl ExpressionType {
    /// The value of this expression in the scope `v`, following at most
    /// `budget` variables one into the definition of the other.
    ///
    /// A variable stands for the value of the expression it is bound to,
    /// in the same scope; where the budget does not reach, that is an
    /// error.
    pub fn eval_bounded<U: FloatUnit>(&self, v: &Values, unit: &U, budget: usize) -> (r: Result<
        Primitive,
        RuntimeError,
    >)
        ensures
            agrees(eval_spec(*unit, self.model(), v.model(), budget as nat), r),
        decreases budget, self,
    {
        match self {
            ExpressionType::String(s) => Ok(Primitive::String(s.clone())),
            ExpressionType::Float(x) => Ok(Primitive::F64(*x)),
            ExpressionType::Int(i) => Ok(Primitive::I64(*i)),
            ExpressionType::Variable(name) => match v.get(name) {
                None => Err(RuntimeError::VarNotDef(name.clone())),
                Some(d) => if budget == 0 {
                    Err(RuntimeError::CyclicDefinition(name.clone()))
                } else {
                    d.eval_bounded(v, unit, budget - 1)
                },
            },
            ExpressionType::Expr(e) => e.eval_bounded(v, unit, budget),
            ExpressionType::Vector(es) => {
                if es.len() == 0 {
                    return Err(RuntimeError::VecTypeError);
                }
                let ghost ms = self.model()->Vector_0;
                let ghost total = eval_spec(*unit, self.model(), v.model(), budget as nat);
                let first = match es[0].eval_bounded(v, unit, budget) {
                    Ok(p) => p,
                    Err(e) => {
                        return Err(e);
                    },
                };
                let mut acc = match start(first) {
                    Some(acc) => acc,
                    None => {
                        return Err(RuntimeError::VecTypeError);
                    },
                };
                let mut i: usize = 1;
                while i < es.len()
                    invariant
                        1 <= i <= es.len(),
                        ms == exprs_model(es@),
                        self == ExpressionType::Vector(*es),
                        total == eval_spec(*unit, self.model(), v.model(), budget as nat),
                        total == gather_spec(
                            *unit,
                            ms,
                            v.model(),
                            budget as nat,
                            i as nat,
                            acc.shape(),
                        ),
                    decreases es.len() - i,
                {
                    match es[i].eval_bounded(v, unit, budget) {
                        Ok(p) => {
                            acc = extend(acc, p);
                        },
                        Err(e) => {
                            return Err(e);
                        },
                    }
                    i += 1;
                }
                Ok(acc)
            },
            ExpressionType::Block(_) | ExpressionType::Duration(_) | ExpressionType::Range(_, _)
            | ExpressionType::Nothing => Err(RuntimeError::ComputeTypeError),
        }
    }
}

impl ArithmeticExpression {
    /// The value of this expression in the scope `v`, following at most
    /// `budget` variables one into the definition of the other.
    pub fn eval_bounded<U: FloatUnit>(&self, v: &Values, unit: &U, budget: usize) -> (r: Result<
        Primitive,
        RuntimeError,
    >)
        ensures
            agrees(eval_spec(*unit, self.model(), v.model(), budget as nat), r),
        decreases budget, self,
    {
        match self {
            ArithmeticExpression::Unary(UnaryOperator::Negate, a) => {
                match a.eval_bounded(v, unit, budget) {
                    Ok(p) => {
                        negate(p, unit)
                    },
                    Err(e) => Err(e),
                }
            },
            ArithmeticExpression::Unary(UnaryOperator::FunctionCall(name), a) => {
                match builtin(name) {
                    None => Err(RuntimeError::UnknownFunction(name.clone())),
                    Some(f) => match a.eval_bounded(v, unit, budget) {
                        Ok(p) => {
                            apply(f, p, unit)
                        },
                        Err(e) => Err(e),
                    },
                }
            },
            ArithmeticExpression::Binary(op, l, r) => {
                let a = match l.eval_bounded(v, unit, budget) {
                    Ok(p) => p,
                    Err(e) => {
                        return Err(e);
                    },
                };
                let b = match r.eval_bounded(v, unit, budget) {
                    Ok(p) => p,
                    Err(e) => {
                        return Err(e);
                    },
                };
                binary(*op, a, b, unit)
            },
        }
    }
}

/// What has a value in a scope.
pub trait Evaluable<U: FloatUnit> {
    /// What evaluating this by `unit` in the scope `s` comes to.
    spec fn outcome(&self, unit: U, s: ScopeModel) -> Outcome;

    /// The value of this in the scope `v`.
    fn eval(&self, v: &Values, unit: &U) -> (r: Result<Primitive, RuntimeError>)
        ensures
            agrees(self.outcome(*unit, v.model()), r),
    ;
}

impl<U: FloatUnit> Evaluable<U> for ExpressionType {
    /// As many variables are followed one into the definition of the other
    /// as the scope has bindings: a longer chain leads through one of them
    /// twice.
    open spec fn outcome(&self, unit: U, s: ScopeModel) -> Outcome {
        eval_spec(unit, self.model(), s, s.len())
    }

    fn eval(&self, v: &Values, unit: &U) -> (r: Result<Primitive, RuntimeError>) {
        self.eval_bounded(v, unit, v.len())
    }
}

impl<U: FloatUnit> Evaluable<U> for ArithmeticExpression {
    open spec fn outcome(&self, unit: U, s: ScopeModel) -> Outcome {
        eval_spec(unit, self.model(), s, s.len())
    }

    fn eval(&self, v: &Values, unit: &U) -> (r: Result<Primitive, RuntimeError>) {
        self.eval_bounded(v, unit, v.len())
    }
}

impl<U: FloatUnit> Evaluable<U> for Condition {
    open spec fn outcome(&self, unit: U, s: ScopeModel) -> Outcome {
        cond_spec(unit, self.model(), s, s.len())
    }

    fn eval(&self, v: &Values, unit: &U) -> (r: Result<Primitive, RuntimeError>) {
        match self {
            Condition::Always => Ok(Primitive::Bool(true)),
            Condition::When(e) => match e.eval_bounded(v, unit, v.len()) {
                Ok(Primitive::Bool(b)) => Ok(Primitive::Bool(b)),
                Ok(_) => Err(RuntimeError::CondNotBoolError),
                Err(e) => Err(e),
            },
            Condition::Unless(e) => match e.eval_bounded(v, unit, v.len()) {
                Ok(Primitive::Bool(b)) => Ok(Primitive::Bool(!b)),
                Ok(_) => Err(RuntimeError::CondNotBoolError),
                Err(e) => Err(e),
            },
        }
    }
}

} // verus!
