use super::error::{Fault, RuntimeError};
use super::float::{FloatBinary, FloatUnit};
use vstd::prelude::*;

verus! {

/// A value of the language. `F64` and `FloatVec` hold the bit patterns of
/// IEEE-754 doubles.
#[derive(Debug, PartialEq, Clone)]
pub enum Primitive {
    I64(i64),
    F64(u64),
    String(String),
    IntVec(Vec<i64>),
    FloatVec(Vec<u64>),
    StrVec(Vec<String>),
    Bool(bool),
}

/// Mathematical model of a value.
pub enum Shape {
    I64(i64),
    F64(u64),
    Str(Seq<char>),
    IntVec(Seq<i64>),
    FloatVec(Seq<u64>),
    StrVec(Seq<Seq<char>>),
    Bool(bool),
}

/// What the evaluation of an expression comes to.
pub enum Outcome {
    /// This value.
    Value(Shape),
    /// This error.
    Fault(Fault),
}

impl Primitive {
    /// The mathematical model of this.
    pub open spec fn shape(&self) -> Shape {
        match self {
            Primitive::I64(i) => Shape::I64(*i),
            Primitive::F64(x) => Shape::F64(*x),
            Primitive::String(s) => Shape::Str(s@),
            Primitive::IntVec(v) => Shape::IntVec(v@),
            Primitive::FloatVec(v) => Shape::FloatVec(v@),
            Primitive::StrVec(v) => Shape::StrVec(Seq::new(v@.len(), |i: int| v@[i]@)),
            Primitive::Bool(b) => Shape::Bool(*b),
        }
    }
}

/// Whether `r` is what `o` says.
pub open spec fn agrees(o: Outcome, r: Result<Primitive, RuntimeError>) -> bool {
    match o {
        Outcome::Value(s) => r matches Ok(p) && p.shape() == s,
        Outcome::Fault(f) => r matches Err(e) && e.fault() == f,
    }
}

/// The operators of elementwise vector arithmetic.
#[derive(Debug, PartialEq, Eq, Clone, Copy, Structural)]
pub enum PrimitiveVecOp {
    Add,
    Sub,
    Mul,
    Div,
}

/// Whether `x` is a 64-bit integer.
pub open spec fn fits_i64(x: int) -> bool {
    i64::MIN <= x <= i64::MAX
}

/// The smaller of two lengths.
pub open spec fn shorter(a: nat, b: nat) -> nat {
    if a <= b {
        a
    } else {
        b
    }
}

/// Whether the sums (with `minus`, the differences) of the elements of `l`
/// and `r` at the same place are 64-bit integers, as far as the shorter of
/// the two goes.
pub open spec fn zip_fits(minus: bool, l: Seq<i64>, r: Seq<i64>) -> bool {
    forall|i: int|
        0 <= i < shorter(l.len(), r.len()) ==> fits_i64(
            if minus {
                #[trigger] l[i] - r[i]
            } else {
                l[i] + r[i]
            },
        )
}

/// Those sums or differences.
pub open spec fn zipped(minus: bool, l: Seq<i64>, r: Seq<i64>) -> Seq<i64> {
    Seq::new(
        shorter(l.len(), r.len()),
        |i: int|
            if minus {
                (l[i] - r[i]) as i64
            } else {
                (l[i] + r[i]) as i64
            },
    )
}

/// The same operation on floating-point numbers.
pub open spec fn float_op_of(op: PrimitiveVecOp) -> FloatBinary {
    match op {
        PrimitiveVecOp::Add => FloatBinary::Add,
        PrimitiveVecOp::Sub => FloatBinary::Sub,
        PrimitiveVecOp::Mul => FloatBinary::Mul,
        PrimitiveVecOp::Div => FloatBinary::Div,
    }
}

/// A number as a floating-point number: an integer converted, a
/// floating-point number as it is.
pub open spec fn lifted<U: FloatUnit>(unit: U, s: Shape) -> u64 {
    match s {
        Shape::I64(i) => unit.int_value(i),
        Shape::F64(x) => x,
        _ => 0,
    }
}

/// The integers of `v`, each converted to a floating-point number.
pub open spec fn converted<U: FloatUnit>(unit: U, v: Seq<i64>) -> Seq<u64> {
    Seq::new(v.len(), |k: int| unit.int_value(v[k]))
}

/// The elements of a numeric vector as floating-point numbers.
pub open spec fn floats_of<U: FloatUnit>(unit: U, s: Shape) -> Seq<u64> {
    match s {
        Shape::IntVec(v) => converted(unit, v),
        Shape::FloatVec(v) => v,
        _ => Seq::empty(),
    }
}

/// `op` applied to the elements of `l` and `r` at the same place, that of
/// `l` on the left, as far as the shorter of the two goes.
pub open spec fn zipped_floats<U: FloatUnit>(unit: U, op: FloatBinary, l: Seq<u64>, r: Seq<u64>) -> Seq<
    u64,
> {
    Seq::new(shorter(l.len(), r.len()), |k: int| unit.binary_value(op, l[k], r[k]))
}

/// Whether a value is a vector of integers or of floating-point numbers.
pub open spec fn is_numeric_vec(s: Shape) -> bool {
    s is IntVec || s is FloatVec
}

/// Elementwise arithmetic on two vectors. Two vectors of integers are added
/// and subtracted as integers. In every other case of two numeric vectors
/// the integers are converted and the result is a vector of
/// floating-point numbers: element `k` is `op` applied to the elements `k`
/// of the operands, the left one on the left. The result is as long as the
/// shorter operand.
pub open spec fn vec_arith_spec<U: FloatUnit>(unit: U, op: PrimitiveVecOp, l: Shape, r: Shape) -> Outcome {
    match (l, r) {
        (Shape::IntVec(a), Shape::IntVec(b)) if op == PrimitiveVecOp::Add || op
            == PrimitiveVecOp::Sub => {
            let minus = op == PrimitiveVecOp::Sub;
            if zip_fits(minus, a, b) {
                Outcome::Value(Shape::IntVec(zipped(minus, a, b)))
            } else {
                Outcome::Fault(Fault::VecArithTypeError)
            }
        },
        _ => if is_numeric_vec(l) && is_numeric_vec(r) {
            Outcome::Value(
                Shape::FloatVec(
                    zipped_floats(unit, float_op_of(op), floats_of(unit, l), floats_of(unit, r)),
                ),
            )
        } else {
            Outcome::Fault(Fault::VecArithTypeError)
        },
    }
}

/// The number of elements of a vector.
pub open spec fn vec_len(s: Shape) -> nat {
    match s {
        Shape::IntVec(v) => v.len(),
        Shape::FloatVec(v) => v.len(),
        Shape::StrVec(v) => v.len(),
        _ => 0,
    }
}

/// Arithmetic on two numeric vectors gives a vector of integers only where
/// both are vectors of integers and are added or subtracted; where one of
/// them holds floating-point numbers, or two vectors of integers are
/// multiplied or divided, it gives a vector of floating-point numbers as
/// long as the shorter operand.
pub proof fn lemma_vec_arith_kinds<U: FloatUnit>(unit: U, op: PrimitiveVecOp, l: Shape, r: Shape)
    requires
        is_numeric_vec(l),
        is_numeric_vec(r),
    ensures
        vec_arith_spec(unit, op, l, r) matches Outcome::Value(Shape::IntVec(_)) ==> l is IntVec
            && r is IntVec && (op == PrimitiveVecOp::Add || op == PrimitiveVecOp::Sub),
        l is FloatVec || r is FloatVec || op == PrimitiveVecOp::Mul || op == PrimitiveVecOp::Div
            ==> (vec_arith_spec(unit, op, l, r) matches Outcome::Value(Shape::FloatVec(v))
            && v.len() == shorter(vec_len(l), vec_len(r))),
{
}

fn zip_ints(minus: bool, l: &Vec<i64>, r: &Vec<i64>) -> (out: Option<Vec<i64>>)
    ensures
        match out {
            Some(v) => zip_fits(minus, l@, r@) && v@ == zipped(minus, l@, r@),
            None => !zip_fits(minus, l@, r@),
        },
{
    let n = if l.len() <= r.len() {
        l.len()
    } else {
        r.len()
    };
    let mut v: Vec<i64> = Vec::new();
    let mut i: usize = 0;
    while i < n
        invariant
            i <= n,
            n == shorter(l@.len(), r@.len()),
            v@.len() == i,
            forall|k: int| 0 <= k < i ==> fits_i64(if minus { #[trigger] l@[k] - r@[k] } else { l@[k] + r@[k] }),
            forall|k: int| 0 <= k < i ==> v@[k] == zipped(minus, l@, r@)[k],
        decreases n - i,
    {
        let x = if minus {
            l[i].checked_sub(r[i])
        } else {
            l[i].checked_add(r[i])
        };
        match x {
            Some(x) => {
                v.push(x);
            },
            None => {
                assert(!fits_i64(if minus { l@[i as int] - r@[i as int] } else { l@[i as int] + r@[i as int] }));
                return None;
            },
        }
        i += 1;
    }
    assert(v@ =~= zipped(minus, l@, r@));
    Some(v)
}

fn ints_to_floats<U: FloatUnit>(v: &Vec<i64>, unit: &U) -> (out: Vec<u64>)
    ensures
        out@ == converted(*unit, v@),
{
    let mut out: Vec<u64> = Vec::new();
    let mut i: usize = 0;
    while i < v.len()
        invariant
            i <= v.len(),
            out@.len() == i,
            forall|k: int| 0 <= k < i ==> out@[k] == unit.int_value(v@[k]),
        decreases v.len() - i,
    {
        out.push(unit.from_int(v[i]));
        i += 1;
    }
    assert(out@ =~= converted(*unit, v@));
    out
}

fn zip_floats<U: FloatUnit>(op: FloatBinary, l: &Vec<u64>, r: &Vec<u64>, unit: &U) -> (out: Vec<u64>)
    ensures
        out@ == zipped_floats(*unit, op, l@, r@),
{
    let n = if l.len() <= r.len() {
        l.len()
    } else {
        r.len()
    };
    let mut out: Vec<u64> = Vec::new();
    let mut i: usize = 0;
    while i < n
        invariant
            i <= n,
            n == shorter(l@.len(), r@.len()),
            out@.len() == i,
            forall|k: int| 0 <= k < i ==> out@[k] == unit.binary_value(op, l@[k], r@[k]),
        decreases n - i,
    {
        out.push(unit.binary(op, l[i], r[i]));
        i += 1;
    }
    assert(out@ =~= zipped_floats(*unit, op, l@, r@));
    out
}

impl PrimitiveVecOp {
    /// The same operation on floating-point numbers.
    pub fn float_op(self) -> (r: FloatBinary)
        ensures
            r == float_op_of(self),
    {
        match self {
            PrimitiveVecOp::Add => FloatBinary::Add,
            PrimitiveVecOp::Sub => FloatBinary::Sub,
            PrimitiveVecOp::Mul => FloatBinary::Mul,
            PrimitiveVecOp::Div => FloatBinary::Div,
        }
    }
}

/// Applies `op` to the elements of `lhs` and `rhs` at the same place, `lhs`
/// on the left, as far as the shorter of the two goes. Integers that meet
/// floating-point numbers, or are multiplied or divided, are converted
/// first.
pub fn primitive_vec_arithmetic<U: FloatUnit>(
    op: PrimitiveVecOp,
    lhs: Primitive,
    rhs: Primitive,
    unit: &U,
) -> (r: Result<Primitive, RuntimeError>)
    ensures
        agrees(vec_arith_spec(*unit, op, lhs.shape(), rhs.shape()), r),
{
    match (lhs, rhs) {
        (Primitive::IntVec(lh), Primitive::IntVec(rh)) => match op {
            PrimitiveVecOp::Add | PrimitiveVecOp::Sub => {
                match zip_ints(op == PrimitiveVecOp::Sub, &lh, &rh) {
                    Some(v) => Ok(Primitive::IntVec(v)),
                    None => Err(RuntimeError::VecArithTypeError),
                }
            },
            _ => {
                let lf = ints_to_floats(&lh, unit);
                let rf = ints_to_floats(&rh, unit);
                Ok(Primitive::FloatVec(zip_floats(op.float_op(), &lf, &rf, unit)))
            },
        },
        (Primitive::FloatVec(lh), Primitive::FloatVec(rh)) => Ok(
            Primitive::FloatVec(zip_floats(op.float_op(), &lh, &rh, unit)),
        ),
        (Primitive::IntVec(lh), Primitive::FloatVec(rh)) => {
            let lf = ints_to_floats(&lh, unit);
            Ok(Primitive::FloatVec(zip_floats(op.float_op(), &lf, &rh, unit)))
        },
        (Primitive::FloatVec(lh), Primitive::IntVec(rh)) => {
            let rf = ints_to_floats(&rh, unit);
            Ok(Primitive::FloatVec(zip_floats(op.float_op(), &lh, &rf, unit)))
        },
        _ => Err(RuntimeError::VecArithTypeError),
    }
}

} // verus!
