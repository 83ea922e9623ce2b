use vstd::prelude::*;

verus! {

/// Binary operators of the language.
#[derive(Debug, PartialEq, Eq, Hash, Clone, Copy, Structural)]
pub enum Op {
    Test,
    And,
    Or,
    Add,
    Sub,
    Mul,
    Div,
    Exp,
    GT,
    LT,
    GTE,
    LTE,
}

} // verus!
