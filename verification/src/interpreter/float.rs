use vstd::prelude::*;

verus! {

/// Arithmetic on two floating-point numbers.
#[derive(Debug, PartialEq, Eq, Clone, Copy, Structural)]
pub enum FloatBinary {
    Add,
    Sub,
    Mul,
    Div,
    Pow,
}

/// Order comparisons of two floating-point numbers.
#[derive(Debug, PartialEq, Eq, Clone, Copy, Structural)]
pub enum FloatCompare {
    GT,
    GTE,
    LT,
    LTE,
}

/// Functions of one floating-point number. The trigonometric ones take
/// their argument in degrees.
#[derive(Debug, PartialEq, Eq, Clone, Copy, Structural)]
pub enum FloatFunction {
    Negate,
    Sqrt,
    Sin,
    Cos,
    Tan,
}

/// The floating-point arithmetic that the interpreter runs on.
///
/// Floating-point numbers travel through this crate as the bit patterns of
/// IEEE-754 doubles, and this crate never computes on them itself: every
/// operation on them is a call into a `FloatUnit` that the host supplies.
///
/// Each operation on numbers has a name for what it returns, so that the
/// contracts of this crate can say which operation got which operands. A
/// unit must be a function of its arguments: each such method returns what
/// the function of its name gives, and an implementation gives that
/// function the body that calls the method. Nothing else is assumed of a
/// unit.
pub trait FloatUnit {
    /// What `from_int` returns.
    spec fn int_value(&self, i: i64) -> u64;

    /// What `binary` returns.
    spec fn binary_value(&self, op: FloatBinary, a: u64, b: u64) -> u64;

    /// What `compare` returns.
    spec fn compare_value(&self, op: FloatCompare, a: u64, b: u64) -> bool;

    /// What `function` returns.
    spec fn function_value(&self, f: FloatFunction, a: u64) -> u64;

    /// What `to_u32` returns.
    spec fn u32_value(&self, a: u64) -> u32;

    /// What `normalize_degrees` returns.
    spec fn degrees_value(&self, a: u64) -> u64;

    /// What `normalize_degrees_int` returns.
    spec fn int_degrees_value(&self, i: i64) -> u64;

    /// What `angle_cos` returns.
    spec fn cos_value(&self, angle: u64) -> u64;

    /// What `angle_sin` returns.
    spec fn sin_value(&self, angle: u64) -> u64;

    /// The double nearest to `i`.
    fn from_int(&self, i: i64) -> (r: u64)
        ensures
            r == self.int_value(i),
    ;

    /// `a op b`, in this order.
    fn binary(&self, op: FloatBinary, a: u64, b: u64) -> (r: u64)
        ensures
            r == self.binary_value(op, a, b),
    ;

    /// Whether `a op b` holds, in this order.
    fn compare(&self, op: FloatCompare, a: u64, b: u64) -> (r: bool)
        ensures
            r == self.compare_value(op, a, b),
    ;

    /// `f` applied to `a`.
    fn function(&self, f: FloatFunction, a: u64) -> (r: u64)
        ensures
            r == self.function_value(f, a),
    ;

    /// `a` cut to a whole number of `0 ..= u32::MAX`: the fraction is
    /// dropped, what lies outside the range goes to its nearer end, and
    /// not-a-number gives 0.
    fn to_u32(&self, a: u64) -> (r: u32)
        ensures
            r == self.u32_value(a),
    ;

    /// The angle of `a` degrees, held in single precision and brought
    /// into `[0, 360)`.
    fn normalize_degrees(&self, a: u64) -> (r: u64)
        ensures
            r == self.degrees_value(a),
    ;

    /// The angle of `i` degrees, held in single precision and brought
    /// into `[0, 360)`.
    fn normalize_degrees_int(&self, i: i64) -> (r: u64)
        ensures
            r == self.int_degrees_value(i),
    ;

    /// The double nearest to what the decimal numeral `text` stands for:
    /// digits, a point, and digits or none.
    fn parse(&self, text: &str) -> u64;

    /// The cosine of an angle that `normalize_degrees` returned.
    fn angle_cos(&self, angle: u64) -> (r: u64)
        ensures
            r == self.cos_value(angle),
    ;

    /// The sine of an angle that `normalize_degrees` returned.
    fn angle_sin(&self, angle: u64) -> (r: u64)
        ensures
            r == self.sin_value(angle),
    ;
}

} // verus!
