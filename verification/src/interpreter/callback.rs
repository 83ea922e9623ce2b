use super::entity::{spawn_entity, Entity, ExecutionEnvironment};
use super::error::{CompileError, CompileFault, Fault, RuntimeError};
use super::evaluate::{cond_spec, Evaluable};
use super::float::{FloatBinary, FloatUnit};
use super::primitive::{Outcome, Primitive, Shape};
use super::{BulletMap, EntityMap, PathMap, PatternMap};
use crate::parser::parser::{
    lemma_model_variant, lemma_position, lookup, position, Block, BlockModel, ExprModel,
    ExpressionType, ForData, ForModel, Node, NodeModel, ScopeModel, Values, WaitData, WaitModel,
};
use crate::text::is_word;
use itertools::Itertools;
use vstd::prelude::*;
use vstd::string::StringExecFns;

verus! {

/// The most combinations of a loop that can be collected: each takes a
/// vector of three words, and a vector holds no more than `isize::MAX`
/// bytes.
pub open spec fn max_combinations() -> nat {
    (usize::MAX / 64) as nat
}

/// The product of the numbers of `lens`.
pub open spec fn product(lens: Seq<nat>) -> nat
    decreases lens.len(),
{
    if lens.len() == 0 {
        1
    } else {
        product(lens.drop_last()) * lens.last()
    }
}

/// How many combinations there are of one element from each of some
/// sequences of these lengths: the product of the lengths, but none where
/// there is no sequence at all.
pub open spec fn combination_count(lens: Seq<nat>) -> nat {
    if lens.len() == 0 {
        0
    } else {
        product(lens)
    }
}

/// The place in sequence `j` of the element that combination `k` takes from
/// it: combinations are counted with the last sequence varying fastest.
pub open spec fn digit(lens: Seq<nat>, j: int, k: int) -> int {
    (k / (product(lens.subrange(j + 1, lens.len() as int)) as int)) % (lens[j] as int)
}

/// The lengths of some sequences.
pub open spec fn lens_of(ranges: Seq<Seq<i64>>) -> Seq<nat> {
    Seq::new(ranges.len(), |j: int| ranges[j].len())
}

/// Combination `k` of one element from each sequence of `ranges`.
pub open spec fn combination(ranges: Seq<Seq<i64>>, k: int) -> Seq<i64> {
    Seq::new(ranges.len(), |j: int| ranges[j][digit(lens_of(ranges), j, k)])
}

/// The contents of some vectors.
pub open spec fn ranges_model(v: Seq<Vec<i64>>) -> Seq<Seq<i64>> {
    Seq::new(v.len(), |j: int| v[j]@)
}

/// `Itertools::multi_cartesian_product` over the vectors of `ranges`,
/// collected: every combination of one element from each vector, in the
/// order in which the last vector varies fastest. There is none where
/// `ranges` is empty or one of its vectors is.
#[verifier::external_body]
fn multi_cartesian_product(ranges: &Vec<Vec<i64>>) -> (r: Vec<Vec<i64>>)
    requires
        combination_count(lens_of(ranges_model(ranges@))) <= max_combinations(),
    ensures
        r@.len() == combination_count(lens_of(ranges_model(ranges@))),
        forall|k: int| 0 <= k < r@.len() ==> (#[trigger] r@[k])@ == combination(ranges_model(ranges@), k),
{
    ranges.iter().multi_cartesian_product().map(|c| c.into_iter().copied().collect()).collect()
}

/// The variables of a loop with their ranges, in the order of their
/// declaration: the bindings of `defs` whose expression is a range.
pub open spec fn loop_vars(defs: ScopeModel) -> Seq<(Seq<char>, i64, i64)>
    decreases defs.len(),
{
    if defs.len() == 0 {
        Seq::empty()
    } else {
        let rest = loop_vars(defs.drop_last());
        match defs.last().1 {
            ExprModel::Range(a, b) => rest.push((defs.last().0, a, b)),
            _ => rest,
        }
    }
}

/// The number of integers of the range `a...b`, which holds `a` and not `b`.
pub open spec fn range_len(a: i64, b: i64) -> nat {
    if b > a {
        (b - a) as nat
    } else {
        0
    }
}

/// The lengths of the ranges of some loop variables.
pub open spec fn var_lens(vars: Seq<(Seq<char>, i64, i64)>) -> Seq<nat> {
    Seq::new(vars.len(), |j: int| range_len(vars[j].1, vars[j].2))
}

/// The bindings of combination `k` of a loop: each variable, in the order of
/// declaration, bound to an integer of its range; the last variable varies
/// fastest.
pub open spec fn loop_bindings(vars: Seq<(Seq<char>, i64, i64)>, k: int) -> ScopeModel {
    Seq::new(
        vars.len(),
        |j: int| (vars[j].0, ExprModel::Int((vars[j].1 + digit(var_lens(vars), j, k)) as i64)),
    )
}

/// A product with a factor zero is zero.
pub proof fn lemma_product_zero(lens: Seq<nat>, j: int)
    requires
        0 <= j < lens.len(),
        lens[j] == 0,
    ensures
        product(lens) == 0,
    decreases lens.len(),
{
    if j < lens.len() - 1 {
        lemma_product_zero(lens.drop_last(), j);
        assert(0 * lens.last() == 0) by (nonlinear_arith);
    } else {
        assert(product(lens.drop_last()) * 0 == 0) by (nonlinear_arith);
    }
}

/// A loop over at least one range has as many combinations as the product
/// of the lengths of its ranges says, and so none where a range is empty.
pub proof fn lemma_combination_count(vars: Seq<(Seq<char>, i64, i64)>)
    requires
        vars.len() > 0,
    ensures
        combination_count(var_lens(vars)) == product(var_lens(vars)),
        (exists|j: int| 0 <= j < vars.len() && (#[trigger] vars[j]).2 <= vars[j].1)
            ==> combination_count(var_lens(vars)) == 0,
{
    if exists|j: int| 0 <= j < vars.len() && (#[trigger] vars[j]).2 <= vars[j].1 {
        let j = choose|j: int| 0 <= j < vars.len() && (#[trigger] vars[j]).2 <= vars[j].1;
        lemma_product_zero(var_lens(vars), j);
    }
}

/// The integers of the range `a...b`, in rising order.
pub open spec fn range_seq(a: i64, b: i64) -> Seq<i64> {
    Seq::new(range_len(a, b), |d: int| (a + d) as i64)
}

proof fn lemma_product_take(lens: Seq<nat>, i: int)
    requires
        0 <= i < lens.len(),
    ensures
        product(lens.take(i + 1)) == product(lens.take(i)) * lens[i],
{
    assert(lens.take(i + 1).drop_last() =~= lens.take(i));
}

proof fn lemma_product_grows(lens: Seq<nat>, i: int)
    requires
        0 <= i <= lens.len(),
        forall|j: int| 0 <= j < lens.len() ==> lens[j] >= 1,
    ensures
        product(lens.take(i)) <= product(lens),
        product(lens) >= 1,
    decreases lens.len() - i,
{
    if i == lens.len() {
        assert(lens.take(i) =~= lens);
        lemma_product_positive(lens);
    } else {
        lemma_product_grows(lens, i + 1);
        lemma_product_take(lens, i);
        let p = product(lens.take(i));
        let l = lens[i];
        assert(p <= p * l) by (nonlinear_arith)
            requires
                l >= 1,
        ;
    }
}

proof fn lemma_product_positive(lens: Seq<nat>)
    requires
        forall|j: int| 0 <= j < lens.len() ==> lens[j] >= 1,
    ensures
        product(lens) >= 1,
    decreases lens.len(),
{
    if lens.len() > 0 {
        lemma_product_positive(lens.drop_last());
        let p = product(lens.drop_last());
        let l = lens.last();
        assert(p * l >= 1) by (nonlinear_arith)
            requires
                p >= 1,
                l >= 1,
        ;
    }
}

/// Reads the variables of a loop off its declarations.
fn read_loop_vars(defs: &Values) -> (r: (Vec<String>, Vec<(i64, i64)>))
    ensures
        r.0@.len() == loop_vars(defs.model()).len(),
        r.1@.len() == loop_vars(defs.model()).len(),
        forall|j: int|
            0 <= j < r.0@.len() ==> (#[trigger] loop_vars(defs.model())[j]) == (
                r.0@[j]@,
                r.1@[j].0,
                r.1@[j].1,
            ),
{
    let mut names: Vec<String> = Vec::new();
    let mut bounds: Vec<(i64, i64)> = Vec::new();
    let mut i: usize = 0;
    assert(defs.model().take(0) =~= Seq::empty());
    while i < defs.entries.len()
        invariant
            i <= defs.entries@.len(),
            names@.len() == loop_vars(defs.model().take(i as int)).len(),
            bounds@.len() == names@.len(),
            forall|j: int|
                0 <= j < names@.len() ==> (#[trigger] loop_vars(defs.model().take(i as int))[j]) == (
                    names@[j]@,
                    bounds@[j].0,
                    bounds@[j].1,
                ),
        decreases defs.entries@.len() - i,
    {
        let ghost next = defs.model().take(i + 1);
        assert(next.drop_last() =~= defs.model().take(i as int));
        assert(next.last() == defs.model()[i as int]);
        match &defs.entries[i].1 {
            ExpressionType::Range(a, b) => {
                names.push(defs.entries[i].0.clone());
                bounds.push((*a, *b));
            },
            _ => {},
        }
        i += 1;
    }
    assert(defs.model().take(i as int) =~= defs.model());
    (names, bounds)
}

fn collect_range(a: i64, b: i64) -> (r: Vec<i64>)
    requires
        range_len(a, b) <= usize::MAX,
    ensures
        r@ == range_seq(a, b),
{
    let mut out: Vec<i64> = Vec::new();
    let mut x: i64 = a;
    while x < b
        invariant
            a <= x <= b || (b < a && x == a),
            out@.len() == x - a,
            forall|d: int| 0 <= d < out@.len() ==> out@[d] == a + d,
        decreases b - x,
    {
        out.push(x);
        x += 1;
    }
    assert(out@ =~= range_seq(a, b));
    out
}

/// The lengths of the ranges with these bounds.
pub open spec fn bound_lens(bounds: Seq<(i64, i64)>) -> Seq<nat> {
    Seq::new(bounds.len(), |j: int| range_len(bounds[j].0, bounds[j].1))
}

fn has_empty_range(bounds: &Vec<(i64, i64)>) -> (r: bool)
    ensures
        r ==> product(bound_lens(bounds@)) == 0,
        !r ==> forall|j: int| 0 <= j < bounds@.len() ==> (#[trigger] bound_lens(bounds@)[j]) >= 1,
{
    let mut j: usize = 0;
    while j < bounds.len()
        invariant
            j <= bounds@.len(),
            forall|i: int| 0 <= i < j ==> (#[trigger] bound_lens(bounds@)[i]) >= 1,
        decreases bounds@.len() - j,
    {
        if bounds[j].1 <= bounds[j].0 {
            proof {
                assert(bound_lens(bounds@)[j as int] == 0);
                lemma_product_zero(bound_lens(bounds@), j as int);
            }
            return true;
        }
        j += 1;
    }
    false
}

/// The product of the lengths of ranges none of which is empty, where it
/// is no more than can be collected.
fn count_combinations(bounds: &Vec<(i64, i64)>) -> (r: Option<usize>)
    requires
        forall|j: int| 0 <= j < bounds@.len() ==> (#[trigger] bound_lens(bounds@)[j]) >= 1,
    ensures
        match r {
            Some(p) => p == product(bound_lens(bounds@)) && p <= max_combinations(),
            None => product(bound_lens(bounds@)) > max_combinations(),
        },
{
    let ghost lens = bound_lens(bounds@);
    let mut total: usize = 1;
    let mut j: usize = 0;
    assert(lens.take(0) =~= Seq::empty());
    while j < bounds.len()
        invariant
            j <= bounds@.len(),
            lens == bound_lens(bounds@),
            forall|i: int| 0 <= i < bounds@.len() ==> (#[trigger] lens[i]) >= 1,
            total == product(lens.take(j as int)),
        decreases bounds@.len() - j,
    {
        let len: u64 = (bounds[j].1 as i128 - bounds[j].0 as i128) as u64;
        assert(len == lens[j as int]);
        proof {
            lemma_product_take(lens, j as int);
            lemma_product_grows(lens, j + 1);
            lemma_product_positive(lens.take(j as int));
            let p = product(lens.take(j as int));
            assert(p * len >= len) by (nonlinear_arith)
                requires
                    p >= 1,
            ;
        }
        if len > usize::MAX as u64 {
            return None;
        }
        match total.checked_mul(len as usize) {
            Some(t) => {
                total = t;
            },
            None => {
                return None;
            },
        }
        assert(product(lens.take(j + 1)) <= product(lens));
        j += 1;
    }
    assert(lens.take(bounds@.len() as int) =~= lens);
    if total > usize::MAX / 64 {
        return None;
    }
    Some(total)
}

fn collect_ranges(bounds: &Vec<(i64, i64)>) -> (r: Vec<Vec<i64>>)
    requires
        forall|j: int| 0 <= j < bounds@.len() ==> (#[trigger] bound_lens(bounds@)[j]) <= usize::MAX,
    ensures
        r@.len() == bounds@.len(),
        forall|j: int| 0 <= j < r@.len() ==> (#[trigger] r@[j])@ == range_seq(bounds@[j].0, bounds@[j].1),
{
    let mut ranges: Vec<Vec<i64>> = Vec::new();
    let mut j: usize = 0;
    while j < bounds.len()
        invariant
            j <= bounds@.len(),
            forall|i: int| 0 <= i < bounds@.len() ==> (#[trigger] bound_lens(bounds@)[i]) <= usize::MAX,
            ranges@.len() == j,
            forall|i: int| 0 <= i < j ==> (#[trigger] ranges@[i])@ == range_seq(bounds@[i].0, bounds@[i].1),
        decreases bounds@.len() - j,
    {
        assert(bound_lens(bounds@)[j as int] <= usize::MAX);
        ranges.push(collect_range(bounds[j].0, bounds[j].1));
        j += 1;
    }
    ranges
}

proof fn lemma_factor_below_product(lens: Seq<nat>, j: int)
    requires
        0 <= j < lens.len(),
        forall|i: int| 0 <= i < lens.len() ==> lens[i] >= 1,
    ensures
        lens[j] <= product(lens),
{
    lemma_product_take(lens, j);
    lemma_product_grows(lens, j + 1);
    lemma_product_positive(lens.take(j));
    let p = product(lens.take(j));
    let l = lens[j];
    assert(l <= p * l) by (nonlinear_arith)
        requires
            p >= 1,
    ;
}

/// Every combination of one integer from each range, the last range
/// varying fastest; `None` where there are more than can be collected.
fn range_combinations(bounds: &Vec<(i64, i64)>) -> (r: Option<Vec<Vec<i64>>>)
    ensures
        ({
            let lens = bound_lens(bounds@);
            match r {
                Some(combos) => {
                    &&& combination_count(lens) <= max_combinations()
                    &&& combos@.len() == combination_count(lens)
                    &&& forall|k: int|
                        0 <= k < combos@.len() ==> (#[trigger] combos@[k])@.len() == bounds@.len()
                    &&& forall|k: int, j: int|
                        0 <= k < combos@.len() && 0 <= j < bounds@.len() ==> (#[trigger] combos@[k]@[j])
                            == bounds@[j].0 + digit(lens, j, k)
                },
                None => combination_count(lens) > max_combinations(),
            }
        }),
{
    let ghost lens = bound_lens(bounds@);
    if bounds.len() == 0 || has_empty_range(bounds) {
        return Some(Vec::new());
    }
    match count_combinations(bounds) {
        None => None,
        Some(_) => {
            assert forall|j: int| 0 <= j < bounds@.len() implies (#[trigger] lens[j]) <= usize::MAX by {
                lemma_factor_below_product(lens, j);
            }
            let ranges = collect_ranges(bounds);
            assert(lens_of(ranges_model(ranges@)) =~= lens);
            let combos = multi_cartesian_product(&ranges);
            assert forall|k: int, j: int| 0 <= k < combos@.len() && 0 <= j < bounds@.len() implies (
            #[trigger] combos@[k]@[j]) == bounds@[j].0 + digit(lens, j, k) by {
                assert(combos@[k]@ == combination(ranges_model(ranges@), k));
                lemma_digit_in_range(lens, j, k);
                assert(ranges_model(ranges@)[j] == range_seq(bounds@[j].0, bounds@[j].1));
            }
            assert forall|k: int| 0 <= k < combos@.len() implies (#[trigger] combos@[k])@.len()
                == bounds@.len() by {
                assert(combos@[k]@ == combination(ranges_model(ranges@), k));
            }
            Some(combos)
        },
    }
}

proof fn lemma_digit_in_range(lens: Seq<nat>, j: int, k: int)
    requires
        0 <= j < lens.len(),
        lens[j] >= 1,
    ensures
        0 <= digit(lens, j, k) < lens[j],
{
    let q = k / (product(lens.subrange(j + 1, lens.len() as int)) as int);
    let l = lens[j] as int;
    assert(0 <= q % l < l) by (nonlinear_arith)
        requires
            l >= 1,
    ;
}

/// The variables of a loop and every combination of their values: one
/// integer of each variable's range, the last variable varying fastest. It
/// fails only where there are more combinations than can be collected.
pub fn loop_combinations(defs: &Values) -> (r: Result<(Vec<String>, Vec<Vec<i64>>), CompileError>)
    ensures
        ({
            let vars = loop_vars(defs.model());
            let lens = var_lens(vars);
            match r {
                Ok((names, combos)) => {
                    &&& combination_count(lens) <= max_combinations()
                    &&& names@.len() == vars.len()
                    &&& forall|j: int| 0 <= j < vars.len() ==> (#[trigger] names@[j])@ == vars[j].0
                    &&& combos@.len() == combination_count(lens)
                    &&& forall|k: int|
                        0 <= k < combos@.len() ==> (#[trigger] combos@[k])@.len() == vars.len()
                    &&& forall|k: int, j: int|
                        0 <= k < combos@.len() && 0 <= j < vars.len() ==> (#[trigger] combos@[k]@[j])
                            == vars[j].1 + digit(lens, j, k)
                },
                Err(e) => e is TooManyCombinations && combination_count(lens) > max_combinations(),
            }
        }),
{
    let (names, bounds) = read_loop_vars(defs);
    let ghost vars = loop_vars(defs.model());
    assert(var_lens(vars) =~= bound_lens(bounds@));
    match range_combinations(&bounds) {
        Some(combos) => Ok((names, combos)),
        None => Err(CompileError::TooManyCombinations),
    }
}

/// What firing a timeline entry asks for.
#[derive(Debug, PartialEq)]
pub enum CallbackResult {
    Delete,
    Mutate,
    AddEntities(Vec<Entity>),
}

/// What a `spawn` statement has captured for the frame at which it fires:
/// its own fields, the scope it stands in, and the globals of the entity
/// whose timeline it is on.
#[derive(Debug, PartialEq)]
pub struct SpawnClosure {
    pub definitions: Values,
    pub values: Values,
    pub globals: Values,
}

/// The action of a timeline entry.
#[derive(Debug, PartialEq)]
pub enum EntityCallback {
    /// Add the entity that the captured fields describe.
    Spawn(SpawnClosure),
    /// Remove the entity that fires this.
    Delete,
    /// Change nothing.
    Mutate,
}

/// A timeline entry: it fires once the entity has lived `frame` frames.
#[derive(Debug, PartialEq)]
pub struct TimedCallback {
    pub func: EntityCallback,
    pub frame: u32,
}

/// Mathematical model of an action.
pub enum CallbackModel {
    Spawn { definitions: ScopeModel, values: ScopeModel, globals: ScopeModel },
    Delete,
    Mutate,
}

/// Mathematical model of a timeline entry.
pub struct TimedModel {
    pub func: CallbackModel,
    pub frame: u32,
}

/// The model of a timeline.
pub open spec fn timeline_model(v: Seq<TimedCallback>) -> Seq<TimedModel> {
    Seq::new(v.len(), |i: int| v[i].model())
}

impl EntityCallback {
    /// The mathematical model of this.
    pub open spec fn model(&self) -> CallbackModel {
        match self {
            EntityCallback::Spawn(c) => CallbackModel::Spawn {
                definitions: c.definitions.model(),
                values: c.values.model(),
                globals: c.globals.model(),
            },
            EntityCallback::Delete => CallbackModel::Delete,
            EntityCallback::Mutate => CallbackModel::Mutate,
        }
    }

    /// A deep copy.
    pub fn clone(&self) -> (r: Self)
        ensures
            r.model() == self.model(),
    {
        match self {
            EntityCallback::Spawn(c) => EntityCallback::Spawn(
                SpawnClosure {
                    definitions: c.definitions.clone(),
                    values: c.values.clone(),
                    globals: c.globals.clone(),
                },
            ),
            EntityCallback::Delete => EntityCallback::Delete,
            EntityCallback::Mutate => EntityCallback::Mutate,
        }
    }
}

impl EntityCallback {
    /// Does what this action says for the entity `env`: a spawn makes the
    /// entity of its captured fields, the other two only ask for what
    /// their names say.
    pub fn fire<U: FloatUnit>(
        &self,
        env: &mut ExecutionEnvironment,
        paths: &PathMap,
        patterns: &PatternMap,
        ents: &EntityMap,
        bullets: &BulletMap,
        unit: &U,
    ) -> (r: CallbackResult)
        ensures
            *final(env) == *old(env),
            match self.model() {
                CallbackModel::Spawn { definitions, values, globals } => r matches CallbackResult::AddEntities(
                    v,
                ) && v@.len() == 1 && v@[0].model() == spawn_entity(
                    *unit,
                    definitions,
                    *paths,
                    *bullets,
                    globals,
                    Some(values),
                ),
                CallbackModel::Delete => r is Delete,
                CallbackModel::Mutate => r is Mutate,
            },
    {
        match self {
            EntityCallback::Spawn(c) => {
                let mut ents: Vec<Entity> = Vec::new();
                ents.push(
                    Entity::from_values(
                        &c.definitions,
                        paths,
                        bullets,
                        c.globals.clone(),
                        Some(c.values.clone()),
                        unit,
                    ),
                );
                CallbackResult::AddEntities(ents)
            },
            EntityCallback::Delete => CallbackResult::Delete,
            EntityCallback::Mutate => CallbackResult::Mutate,
        }
    }
}

impl TimedCallback {
    /// The mathematical model of this.
    pub open spec fn model(&self) -> TimedModel {
        TimedModel { func: self.func.model(), frame: self.frame }
    }

    /// The entry that does `c` at `frame`.
    pub fn new(c: EntityCallback, frame: u32) -> (r: Self)
        ensures
            r.model() == (TimedModel { func: c.model(), frame }),
    {
        TimedCallback { func: c, frame }
    }
}

/// A duration in frames.
pub enum Frames {
    Count(nat),
    /// It is malformed.
    Malformed,
}

/// The frames of a duration: a whole number of frames as it stands, a whole
/// number of seconds times the frames per second, and of a floating-point
/// number of seconds what the `FloatUnit` cuts their product with the
/// frames per second to.
pub open spec fn duration_spec<U: FloatUnit>(unit: U, w: WaitModel, fps: u16) -> Frames {
    match w {
        WaitModel::Frames(ExprModel::Int(n)) => if 0 <= n <= u32::MAX {
            Frames::Count(n as nat)
        } else {
            Frames::Malformed
        },
        WaitModel::Time(ExprModel::Int(n)) => if 0 <= n && n * fps <= u32::MAX {
            Frames::Count((n * fps) as nat)
        } else {
            Frames::Malformed
        },
        WaitModel::Time(ExprModel::Float(x)) => Frames::Count(
            unit.u32_value(unit.binary_value(FloatBinary::Mul, x, unit.int_value(fps as i64))) as nat,
        ),
        _ => Frames::Malformed,
    }
}

/// How often the actions of a pattern are compiled.
#[derive(Debug, PartialEq, Eq, Clone, Copy, Structural)]
pub enum Replay {
    /// Once.
    Once,
    /// This many times.
    Cycles(u64),
    /// Again and again until the clock has reached this frame.
    Until(u32),
    /// Never.
    Never,
}

/// How a pattern replays its actions, unless its length is malformed.
pub enum Mode {
    Run(Replay),
    Malformed,
}

/// How a pattern with the scope `inner` replays its actions: as
/// `iteration_type` and `length` say.
pub open spec fn replay_mode<U: FloatUnit>(unit: U, inner: ScopeModel, fps: u16) -> Mode {
    match lookup(inner, "iteration_type"@) {
        None => Mode::Run(Replay::Once),
        Some(ExprModel::Variable(kind)) => if kind == "time"@ {
            match lookup(inner, "length"@) {
                None => Mode::Run(Replay::Until(0)),
                Some(ExprModel::Duration(w)) => match duration_spec(unit, *w, fps) {
                    Frames::Count(d) => Mode::Run(Replay::Until(d as u32)),
                    Frames::Malformed => Mode::Malformed,
                },
                Some(_) => Mode::Malformed,
            }
        } else if kind == "cycles"@ {
            match lookup(inner, "length"@) {
                None => Mode::Run(Replay::Cycles(1)),
                Some(ExprModel::Int(n)) => Mode::Run(
                    Replay::Cycles(
                        if n > 0 {
                            n as u64
                        } else {
                            0
                        },
                    ),
                ),
                Some(_) => Mode::Run(Replay::Never),
            }
        } else {
            Mode::Run(Replay::Once)
        },
        Some(_) => Mode::Run(Replay::Never),
    }
}

/// What compiling comes to.
pub enum Compilation {
    /// This timeline, with the clock at this frame afterwards.
    Done(Seq<TimedModel>, nat),
    /// This error.
    Failed(CompileFault),
}

/// Compiles one node at the clock `clock`, in the scope `scope`, behind the
/// entries `acc` that were compiled before it.
///
/// A wait moves the clock and adds no entry. A spawn adds an entry due at
/// the clock, which captures the scope. A loop compiles its body once for
/// each combination of its variables whose guard holds. A pattern lays its
/// definitions over the scope and compiles the block that it binds to
/// `actions` as its replay mode says. Other nodes compile to nothing.
pub open spec fn compile_node<U: FloatUnit>(unit: U, n: NodeModel,
    scope: ScopeModel,
    globals: ScopeModel,
    fps: u16,
    clock: nat,
    acc: Seq<TimedModel>,
) -> Compilation
    decreases n, 0nat,
{
    match n {
        NodeModel::Wait(w) => match duration_spec(unit, w, fps) {
            Frames::Count(d) => if clock + d <= u32::MAX {
                Compilation::Done(acc, clock + d)
            } else {
                Compilation::Failed(CompileFault::ClockOverflow)
            },
            Frames::Malformed => Compilation::Failed(CompileFault::MalformedDuration),
        },
        NodeModel::Spawn(definitions) => Compilation::Done(
            acc.push(
                TimedModel {
                    func: CallbackModel::Spawn { definitions, values: scope, globals },
                    frame: clock as u32,
                },
            ),
            clock,
        ),
        NodeModel::For(f) => {
            let vars = loop_vars(f.initial_definitions);
            if combination_count(var_lens(vars)) > max_combinations() {
                Compilation::Failed(CompileFault::TooManyCombinations)
            } else {
                compile_combos(unit, f, vars, scope, globals, fps, 0, clock, acc)
            }
        },
        NodeModel::Pattern(block) => {
            let inner = scope + block.definitions;
            let at = position(block.definitions, "actions"@);
            if 0 <= at < block.definitions.len() {
                match block.definitions[at].1 {
                    ExprModel::Block(actions) => match replay_mode(unit, inner, fps) {
                        Mode::Run(Replay::Once) => compile_block(unit, actions, inner, globals, fps, clock, acc),
                        Mode::Run(Replay::Cycles(times)) => replay_cycles(unit, actions,
                            inner,
                            globals,
                            fps,
                            times as nat,
                            clock,
                            acc,
                        ),
                        Mode::Run(Replay::Until(target)) => replay_until(unit, actions,
                            inner,
                            globals,
                            fps,
                            target as nat,
                            clock,
                            acc,
                        ),
                        Mode::Run(Replay::Never) => Compilation::Done(acc, clock),
                        Mode::Malformed => Compilation::Failed(CompileFault::MalformedDuration),
                    },
                    _ => Compilation::Done(acc, clock),
                }
            } else {
                replay_nothing(replay_mode(unit, inner, fps), clock, acc)
            }
        },
        _ => Compilation::Done(acc, clock),
    }
}

/// What a pattern without actions compiles to: nothing, unless it is to
/// replay them until a frame that the clock has not reached.
pub open spec fn replay_nothing(mode: Mode, clock: nat, acc: Seq<TimedModel>) -> Compilation {
    match mode {
        Mode::Run(Replay::Until(target)) => if clock >= target {
            Compilation::Done(acc, clock)
        } else {
            Compilation::Failed(CompileFault::StalledReplay)
        },
        Mode::Run(_) => Compilation::Done(acc, clock),
        Mode::Malformed => Compilation::Failed(CompileFault::MalformedDuration),
    }
}

/// Compiles a block: its statements in order, on one clock, in the scope
/// with the block's definitions laid over it.
pub open spec fn compile_block<U: FloatUnit>(unit: U, b: BlockModel,
    scope: ScopeModel,
    globals: ScopeModel,
    fps: u16,
    clock: nat,
    acc: Seq<TimedModel>,
) -> Compilation
    decreases b, 0nat,
{
    compile_stmts(unit, b.statements, scope + b.definitions, globals, fps, 0, clock, acc)
}

/// Compiles the statements from statement `i` on.
pub open spec fn compile_stmts<U: FloatUnit>(unit: U, stmts: Seq<NodeModel>,
    scope: ScopeModel,
    globals: ScopeModel,
    fps: u16,
    i: nat,
    clock: nat,
    acc: Seq<TimedModel>,
) -> Compilation
    decreases stmts, stmts.len() - i,
{
    if i >= stmts.len() {
        Compilation::Done(acc, clock)
    } else {
        match compile_node(unit, stmts[i as int], scope, globals, fps, clock, acc) {
            Compilation::Done(entries, c) => compile_stmts(unit, stmts, scope, globals, fps, i + 1, c, entries),
            other => other,
        }
    }
}

/// Compiles the body of a loop for the combinations from combination `k`
/// on. A combination whose guard is false or no boolean is passed over; a
/// guard that cannot be evaluated is an error.
pub open spec fn compile_combos<U: FloatUnit>(unit: U, f: ForModel,
    vars: Seq<(Seq<char>, i64, i64)>,
    scope: ScopeModel,
    globals: ScopeModel,
    fps: u16,
    k: nat,
    clock: nat,
    acc: Seq<TimedModel>,
) -> Compilation
    decreases f, combination_count(var_lens(vars)) - k,
{
    if k >= combination_count(var_lens(vars)) {
        Compilation::Done(acc, clock)
    } else {
        let bound = scope + loop_bindings(vars, k as int);
        match cond_spec(unit, f.condition, bound, bound.len()) {
            Outcome::Value(Shape::Bool(true)) => match compile_block(unit, f.body, bound, globals, fps, clock, acc) {
                Compilation::Done(entries, c) => compile_combos(unit, f,
                    vars,
                    scope,
                    globals,
                    fps,
                    k + 1,
                    c,
                    entries,
                ),
                other => other,
            },
            Outcome::Value(_) | Outcome::Fault(Fault::CondNotBoolError) => compile_combos(unit, f,
                vars,
                scope,
                globals,
                fps,
                k + 1,
                clock,
                acc,
            ),
            Outcome::Fault(fault) => Compilation::Failed(CompileFault::Guard(fault)),
        }
    }
}

/// Compiles a block `times` times over.
pub open spec fn replay_cycles<U: FloatUnit>(unit: U, b: BlockModel,
    scope: ScopeModel,
    globals: ScopeModel,
    fps: u16,
    times: nat,
    clock: nat,
    acc: Seq<TimedModel>,
) -> Compilation
    decreases b, 1 + times,
{
    if times == 0 {
        Compilation::Done(acc, clock)
    } else {
        match compile_block(unit, b, scope, globals, fps, clock, acc) {
            Compilation::Done(entries, c) => replay_cycles(unit, b,
                scope,
                globals,
                fps,
                (times - 1) as nat,
                c,
                entries,
            ),
            other => other,
        }
    }
}

/// Compiles a block again and again until the clock has reached `target`.
/// A round that leaves the clock where it was is an error.
pub open spec fn replay_until<U: FloatUnit>(unit: U, b: BlockModel,
    scope: ScopeModel,
    globals: ScopeModel,
    fps: u16,
    target: nat,
    clock: nat,
    acc: Seq<TimedModel>,
) -> Compilation
    decreases b, (if clock < target { 1 + target - clock } else { 0 }),
{
    if clock >= target {
        Compilation::Done(acc, clock)
    } else {
        match compile_block(unit, b, scope, globals, fps, clock, acc) {
            Compilation::Done(entries, c) => if c <= clock {
                Compilation::Failed(CompileFault::StalledReplay)
            } else {
                replay_until(unit, b, scope, globals, fps, target, c, entries)
            },
            other => other,
        }
    }
}

/// Whether the timeline `out`, the clock `time` and the result `r` are what
/// `c` says.
pub open spec fn follows(c: Compilation, r: Result<(), CompileError>, out: Seq<TimedCallback>, time: u32) -> bool {
    match c {
        Compilation::Done(entries, clock) => r is Ok && timeline_model(out) == entries && time
            == clock,
        Compilation::Failed(f) => r matches Err(e) && e.fault() == f,
    }
}

/// The frames of a duration.
pub fn frames_of<U: FloatUnit>(w: &WaitData, fps: u16, unit: &U) -> (r: Result<u32, CompileError>)
    ensures
        match duration_spec(*unit, w.model(), fps) {
            Frames::Count(d) => r == Ok::<u32, CompileError>(d as u32),
            Frames::Malformed => r matches Err(e) && e is MalformedDuration,
        },
{
    match w {
        WaitData::Frames(ExpressionType::Int(n)) => {
            if 0 <= *n && *n <= 0xffff_ffff {
                Ok(*n as u32)
            } else {
                Err(CompileError::MalformedDuration)
            }
        },
        WaitData::Time(ExpressionType::Int(n)) => {
            if *n < 0 {
                return Err(CompileError::MalformedDuration);
            }
            assert(0 <= *n * fps <= 0x7fff_ffff_ffff_ffff * 0xffff) by (nonlinear_arith)
                requires
                    0 <= *n <= 0x7fff_ffff_ffff_ffff,
                    0 <= fps <= 0xffff,
            ;
            let total: i128 = (*n as i128) * (fps as i128);
            if total <= 0xffff_ffff {
                Ok(total as u32)
            } else {
                Err(CompileError::MalformedDuration)
            }
        },
        WaitData::Time(ExpressionType::Float(x)) => Ok(
            unit.to_u32(unit.binary(FloatBinary::Mul, *x, unit.from_int(fps as i64))),
        ),
        WaitData::Frames(e) => {
            proof {
                lemma_model_variant(*e);
            }
            Err(CompileError::MalformedDuration)
        },
        WaitData::Time(e) => {
            proof {
                lemma_model_variant(*e);
            }
            Err(CompileError::MalformedDuration)
        },
    }
}

/// Reads the replay mode of a pattern off its scope.
pub fn read_mode<U: FloatUnit>(inner: &Values, fps: u16, unit: &U) -> (r: Result<Replay, CompileError>)
    ensures
        match replay_mode(*unit, inner.model(), fps) {
            Mode::Run(m) => r == Ok::<Replay, CompileError>(m),
            Mode::Malformed => r matches Err(e) && e is MalformedDuration,
        },
{
    let kind_key = String::from_str("iteration_type");
    let length_key = String::from_str("length");
    match inner.get(&kind_key) {
        None => Ok(Replay::Once),
        Some(ExpressionType::Variable(kind)) => {
            if is_word(kind, "time") {
                match inner.get(&length_key) {
                    None => Ok(Replay::Until(0)),
                    Some(ExpressionType::Duration(w)) => match frames_of(w, fps, unit) {
                        Ok(d) => Ok(Replay::Until(d)),
                        Err(e) => Err(e),
                    },
                    Some(_) => Err(CompileError::MalformedDuration),
                }
            } else if is_word(kind, "cycles") {
                match inner.get(&length_key) {
                    None => Ok(Replay::Cycles(1)),
                    Some(ExpressionType::Int(n)) => Ok(
                        Replay::Cycles(
                            if *n > 0 {
                                *n as u64
                            } else {
                                0
                            },
                        ),
                    ),
                    Some(_) => Ok(Replay::Never),
                }
            } else {
                Ok(Replay::Once)
            }
        },
        Some(_) => Ok(Replay::Never),
    }
}

/// The scope of combination `combo` of a loop: the variables bound to the
/// integers of the combination, laid over `scope`.
fn bind_combination(scope: &Values, names: &Vec<String>, combo: &Vec<i64>) -> (r: Values)
    requires
        names@.len() == combo@.len(),
    ensures
        r.model() == scope.model() + Seq::new(
            names@.len(),
            |j: int| (names@[j]@, ExprModel::Int(combo@[j])),
        ),
{
    let mut bound = scope.clone();
    let mut j: usize = 0;
    while j < names.len()
        invariant
            j <= names@.len(),
            names@.len() == combo@.len(),
            bound.model() == scope.model() + Seq::new(
                j as nat,
                |j: int| (names@[j]@, ExprModel::Int(combo@[j])),
            ),
        decreases names@.len() - j,
    {
        let ghost before = bound.model();
        bound.insert(names[j].clone(), ExpressionType::Int(combo[j]));
        assert(bound.model() =~= scope.model() + Seq::new(
            (j + 1) as nat,
            |j: int| (names@[j]@, ExprModel::Int(combo@[j])),
        ));
        j += 1;
    }
    bound
}

fn compile_node_into<U: FloatUnit>(
    n: &Node,
    scope: &Values,
    globals: &Values,
    fps: u16,
    unit: &U,
    time: &mut u32,
    out: &mut Vec<TimedCallback>,
) -> (r: Result<(), CompileError>)
    ensures
        follows(
            compile_node(*unit, n.model(),
                scope.model(),
                globals.model(),
                fps,
                *old(time) as nat,
                timeline_model(old(out)@),
            ),
            r,
            final(out)@,
            *final(time),
        ),
    decreases n, 0nat,
{
    match n {
        Node::Wait(w) => match frames_of(w, fps, unit) {
            Ok(d) => match time.checked_add(d) {
                Some(t) => {
                    *time = t;
                    Ok(())
                },
                None => Err(CompileError::ClockOverflow),
            },
            Err(e) => Err(e),
        },
        Node::Spawn(sd) => {
            let entry = TimedCallback::new(
                EntityCallback::Spawn(
                    SpawnClosure {
                        definitions: sd.definitions.clone(),
                        values: scope.clone(),
                        globals: globals.clone(),
                    },
                ),
                *time,
            );
            let ghost before = timeline_model(out@);
            out.push(entry);
            assert(timeline_model(out@) =~= before.push(entry.model()));
            Ok(())
        },
        Node::For(fd) => compile_for_into(fd, scope, globals, fps, unit, time, out),
        Node::Pattern(pd) => {
            let mut inner = scope.clone();
            inner.extend(pd.block.definitions.clone());
            let key = String::from_str("actions");
            match pd.block.definitions.find(&key) {
                Some(at) => match &pd.block.definitions.entries[at].1 {
                    ExpressionType::Block(actions) => match read_mode(&inner, fps, unit) {
                        Ok(Replay::Once) => compile_block_into(actions, &inner, globals, fps, unit, time, out),
                        Ok(Replay::Cycles(times)) => replay_cycles_into(
                            actions,
                            &inner,
                            globals,
                            fps,
                            unit,
                            times,
                            time,
                            out,
                        ),
                        Ok(Replay::Until(target)) => replay_until_into(
                            actions,
                            &inner,
                            globals,
                            fps,
                            unit,
                            target,
                            time,
                            out,
                        ),
                        Ok(Replay::Never) => Ok(()),
                        Err(e) => Err(e),
                    },
                    _ => Ok(()),
                },
                None => match read_mode(&inner, fps, unit) {
                    Ok(Replay::Until(target)) => if *time >= target {
                        Ok(())
                    } else {
                        Err(CompileError::StalledReplay)
                    },
                    Ok(_) => Ok(()),
                    Err(e) => Err(e),
                },
            }
        },
        _ => Ok(()),
    }
}

fn compile_block_into<U: FloatUnit>(
    b: &Block,
    scope: &Values,
    globals: &Values,
    fps: u16,
    unit: &U,
    time: &mut u32,
    out: &mut Vec<TimedCallback>,
) -> (r: Result<(), CompileError>)
    ensures
        follows(
            compile_block(*unit, b.model(),
                scope.model(),
                globals.model(),
                fps,
                *old(time) as nat,
                timeline_model(old(out)@),
            ),
            r,
            final(out)@,
            *final(time),
        ),
    decreases b, 0nat,
{
    let mut inner = scope.clone();
    inner.extend(b.definitions.clone());
    let ghost total = compile_block(*unit, b.model(),
        scope.model(),
        globals.model(),
        fps,
        *old(time) as nat,
        timeline_model(old(out)@),
    );
    let mut i: usize = 0;
    while i < b.statements.len()
        invariant
            i <= b.statements@.len(),
            inner.model() == scope.model() + b.model().definitions,
            total == compile_block(*unit, b.model(),
                scope.model(),
                globals.model(),
                fps,
                *old(time) as nat,
                timeline_model(old(out)@),
            ),
            total == compile_stmts(*unit, b.model().statements,
                inner.model(),
                globals.model(),
                fps,
                i as nat,
                *time as nat,
                timeline_model(out@),
            ),
        decreases b.statements@.len() - i,
    {
        assert(b.model().statements[i as int] == b.statements@[i as int].model());
        match compile_node_into(&b.statements[i], &inner, globals, fps, unit, time, out) {
            Ok(()) => {},
            Err(e) => {
                return Err(e);
            },
        }
        i += 1;
    }
    Ok(())
}

fn compile_for_into<U: FloatUnit>(
    fd: &ForData,
    scope: &Values,
    globals: &Values,
    fps: u16,
    unit: &U,
    time: &mut u32,
    out: &mut Vec<TimedCallback>,
) -> (r: Result<(), CompileError>)
    ensures
        follows(
            compile_node(*unit, NodeModel::For(fd.model()),
                scope.model(),
                globals.model(),
                fps,
                *old(time) as nat,
                timeline_model(old(out)@),
            ),
            r,
            final(out)@,
            *final(time),
        ),
    decreases fd, 1nat,
{
    let ghost vars = loop_vars(fd.model().initial_definitions);
    let ghost total = compile_node(*unit, NodeModel::For(fd.model()),
        scope.model(),
        globals.model(),
        fps,
        *old(time) as nat,
        timeline_model(old(out)@),
    );
    let (names, combos) = match loop_combinations(&fd.initial_definitions) {
        Ok(found) => found,
        Err(e) => {
            return Err(e);
        },
    };
    let mut k: usize = 0;
    while k < combos.len()
        invariant
            k <= combos@.len(),
            vars == loop_vars(fd.model().initial_definitions),
            combos@.len() == combination_count(var_lens(vars)),
            names@.len() == vars.len(),
            forall|j: int| 0 <= j < vars.len() ==> (#[trigger] names@[j])@ == vars[j].0,
            forall|i: int| 0 <= i < combos@.len() ==> (#[trigger] combos@[i])@.len() == vars.len(),
            forall|i: int, j: int|
                0 <= i < combos@.len() && 0 <= j < vars.len() ==> (#[trigger] combos@[i]@[j])
                    == vars[j].1 + digit(var_lens(vars), j, i),
            total == compile_node(*unit, NodeModel::For(fd.model()),
                scope.model(),
                globals.model(),
                fps,
                *old(time) as nat,
                timeline_model(old(out)@),
            ),
            total == compile_combos(*unit, fd.model(),
                vars,
                scope.model(),
                globals.model(),
                fps,
                k as nat,
                *time as nat,
                timeline_model(out@),
            ),
        decreases combos@.len() - k,
    {
        let bound = bind_combination(scope, &names, &combos[k]);
        assert(bound.model() =~= scope.model() + loop_bindings(vars, k as int)) by {
            assert(Seq::new(
                names@.len(),
                |j: int| (names@[j]@, ExprModel::Int(combos@[k as int]@[j])),
            ) =~= loop_bindings(vars, k as int));
        }
        match fd.condition.eval(&bound, unit) {
            Ok(Primitive::Bool(true)) => {
                match compile_block_into(&fd.body, &bound, globals, fps, unit, time, out) {
                    Ok(()) => {},
                    Err(e) => {
                        return Err(e);
                    },
                }
            },
            Ok(_) => {},
            Err(RuntimeError::CondNotBoolError) => {},
            Err(e) => {
                return Err(CompileError::Guard(e));
            },
        }
        k += 1;
    }
    Ok(())
}

fn replay_cycles_into<U: FloatUnit>(
    b: &Block,
    scope: &Values,
    globals: &Values,
    fps: u16,
    unit: &U,
    times: u64,
    time: &mut u32,
    out: &mut Vec<TimedCallback>,
) -> (r: Result<(), CompileError>)
    ensures
        follows(
            replay_cycles(*unit, b.model(),
                scope.model(),
                globals.model(),
                fps,
                times as nat,
                *old(time) as nat,
                timeline_model(old(out)@),
            ),
            r,
            final(out)@,
            *final(time),
        ),
    decreases b, 1nat,
{
    let ghost total = replay_cycles(*unit, b.model(),
        scope.model(),
        globals.model(),
        fps,
        times as nat,
        *old(time) as nat,
        timeline_model(old(out)@),
    );
    let mut left: u64 = times;
    while left > 0
        invariant
            total == replay_cycles(*unit, b.model(),
                scope.model(),
                globals.model(),
                fps,
                times as nat,
                *old(time) as nat,
                timeline_model(old(out)@),
            ),
            total == replay_cycles(*unit, b.model(),
                scope.model(),
                globals.model(),
                fps,
                left as nat,
                *time as nat,
                timeline_model(out@),
            ),
        decreases left,
    {
        match compile_block_into(b, scope, globals, fps, unit, time, out) {
            Ok(()) => {},
            Err(e) => {
                return Err(e);
            },
        }
        left -= 1;
    }
    Ok(())
}

fn replay_until_into<U: FloatUnit>(
    b: &Block,
    scope: &Values,
    globals: &Values,
    fps: u16,
    unit: &U,
    target: u32,
    time: &mut u32,
    out: &mut Vec<TimedCallback>,
) -> (r: Result<(), CompileError>)
    ensures
        follows(
            replay_until(*unit, b.model(),
                scope.model(),
                globals.model(),
                fps,
                target as nat,
                *old(time) as nat,
                timeline_model(old(out)@),
            ),
            r,
            final(out)@,
            *final(time),
        ),
    decreases b, 1nat,
{
    let ghost total = replay_until(*unit, b.model(),
        scope.model(),
        globals.model(),
        fps,
        target as nat,
        *old(time) as nat,
        timeline_model(old(out)@),
    );
    let mut now: u32 = *time;
    while now < target
        invariant
            now == *time,
            total == replay_until(*unit, b.model(),
                scope.model(),
                globals.model(),
                fps,
                target as nat,
                *old(time) as nat,
                timeline_model(old(out)@),
            ),
            total == replay_until(*unit, b.model(),
                scope.model(),
                globals.model(),
                fps,
                target as nat,
                *time as nat,
                timeline_model(out@),
            ),
        decreases (if now < target { target - now } else { 0 }),
    {
        match compile_block_into(b, scope, globals, fps, unit, time, out) {
            Ok(()) => {},
            Err(e) => {
                return Err(e);
            },
        }
        if *time <= now {
            return Err(CompileError::StalledReplay);
        }
        now = *time;
    }
    Ok(())
}

/// Whether the result `r` and the clock `time` are what `c` says.
pub open spec fn realizes(c: Compilation, r: Result<Vec<TimedCallback>, CompileError>, time: u32) -> bool {
    match c {
        Compilation::Done(entries, clock) => r matches Ok(v) && timeline_model(v@) == entries
            && time == clock,
        Compilation::Failed(f) => r matches Err(e) && e.fault() == f,
    }
}

/// What compiles into a timeline.
pub trait Callback<U: FloatUnit> {
    /// What compiling this comes to, on a clock at `clock` and in the scope
    /// `scope`.
    spec fn compiled(
        &self,
        unit: U,
        scope: ScopeModel,
        globals: ScopeModel,
        fps: u16,
        clock: nat,
    ) -> Compilation;

    /// Compiles this into a timeline, on a clock that starts at frame 0 and
    /// in an empty scope. The timeline holds the entries in the order in
    /// which the walk meets them, which need not be that of their frames.
    fn create(
        &self,
        paths: &PathMap,
        patterns: &PatternMap,
        ents: &EntityMap,
        bullets: &BulletMap,
        globals: &Values,
        fps: u16,
        unit: &U,
    ) -> (r: Result<Vec<TimedCallback>, CompileError>)
        ensures
            match self.compiled(*unit, Seq::empty(), globals.model(), fps, 0) {
                Compilation::Done(entries, _) => r matches Ok(v) && timeline_model(v@) == entries,
                Compilation::Failed(f) => r matches Err(e) && e.fault() == f,
            },
    ;

    /// Compiles this into a timeline, on the clock `time` and in the scope
    /// `values`. On success `time` is the clock afterwards.
    fn create_inner(
        &self,
        time: &mut u32,
        values: Values,
        paths: &PathMap,
        patterns: &PatternMap,
        ents: &EntityMap,
        bullets: &BulletMap,
        globals: &Values,
        fps: u16,
        unit: &U,
    ) -> (r: Result<Vec<TimedCallback>, CompileError>)
        ensures
            realizes(
                self.compiled(*unit, values.model(), globals.model(), fps, *old(time) as nat),
                r,
                *final(time),
            ),
    ;
}

impl<U: FloatUnit> Callback<U> for Node {
    open spec fn compiled(
        &self,
        unit: U,
        scope: ScopeModel,
        globals: ScopeModel,
        fps: u16,
        clock: nat,
    ) -> Compilation {
        compile_node(unit, self.model(), scope, globals, fps, clock, Seq::empty())
    }

    fn create(
        &self,
        paths: &PathMap,
        patterns: &PatternMap,
        ents: &EntityMap,
        bullets: &BulletMap,
        globals: &Values,
        fps: u16,
        unit: &U,
    ) -> (r: Result<Vec<TimedCallback>, CompileError>) {
        let mut time: u32 = 0;
        self.create_inner(&mut time, Values::new(), paths, patterns, ents, bullets, globals, fps, unit)
    }

    fn create_inner(
        &self,
        time: &mut u32,
        values: Values,
        paths: &PathMap,
        patterns: &PatternMap,
        ents: &EntityMap,
        bullets: &BulletMap,
        globals: &Values,
        fps: u16,
        unit: &U,
    ) -> (r: Result<Vec<TimedCallback>, CompileError>) {
        let mut out: Vec<TimedCallback> = Vec::new();
        assert(timeline_model(out@) =~= Seq::empty());
        match compile_node_into(self, &values, globals, fps, unit, time, &mut out) {
            Ok(()) => Ok(out),
            Err(e) => Err(e),
        }
    }
}

/// A wait of a whole number of frames moves the clock by that number
/// whatever the frame rate is, a wait of a whole number of seconds by that
/// number times the frame rate; neither adds an entry.
pub proof fn lemma_wait_advances<U: FloatUnit>(
    unit: U,
    n: i64,
    fps: u16,
    scope: ScopeModel,
    globals: ScopeModel,
    clock: nat,
    acc: Seq<TimedModel>,
)
    requires
        0 <= n,
    ensures
        clock + n <= u32::MAX ==> compile_node(unit, NodeModel::Wait(WaitModel::Frames(ExprModel::Int(n))),
            scope,
            globals,
            fps,
            clock,
            acc,
        ) == Compilation::Done(acc, (clock + n) as nat),
        clock + n * fps <= u32::MAX ==> compile_node(unit, NodeModel::Wait(WaitModel::Time(ExprModel::Int(n))),
            scope,
            globals,
            fps,
            clock,
            acc,
        ) == Compilation::Done(acc, (clock + n * fps) as nat),
{
    assert(n * fps >= 0) by (nonlinear_arith)
        requires
            n >= 0,
            fps >= 0,
    ;
}

/// Replaying a block without statements any number of times adds no entry
/// and leaves the clock where it was.
pub proof fn lemma_replay_cycles_empty<U: FloatUnit>(
    unit: U,
    b: BlockModel,
    scope: ScopeModel,
    globals: ScopeModel,
    fps: u16,
    times: nat,
    clock: nat,
    acc: Seq<TimedModel>,
)
    requires
        b.statements.len() == 0,
    ensures
        replay_cycles(unit, b, scope, globals, fps, times, clock, acc) == Compilation::Done(acc, clock),
    decreases times,
{
    assert(compile_block(unit, b, scope, globals, fps, clock, acc) == Compilation::Done(acc, clock)) by {
        assert(compile_stmts(unit, b.statements, scope + b.definitions, globals, fps, 0, clock, acc)
            == Compilation::Done(acc, clock));
    }
    if times > 0 {
        lemma_replay_cycles_empty(unit, b, scope, globals, fps, (times - 1) as nat, clock, acc);
    }
}

/// A pattern whose actions hold no statement compiles to no entry and
/// leaves the clock where it was. (One that is to be replayed until a frame
/// that the clock has not reached is rejected instead, and so is one with a
/// malformed length.)
pub proof fn lemma_empty_pattern<U: FloatUnit>(
    unit: U,
    block: BlockModel,
    scope: ScopeModel,
    globals: ScopeModel,
    fps: u16,
    clock: nat,
    acc: Seq<TimedModel>,
)
    requires
        ({
            let at = position(block.definitions, "actions"@);
            at >= 0 ==> (block.definitions[at].1 matches ExprModel::Block(actions)
                ==> actions.statements.len() == 0)
        }),
        match replay_mode(unit, scope + block.definitions, fps) {
            Mode::Run(Replay::Until(target)) => clock >= target,
            Mode::Run(_) => true,
            _ => false,
        },
    ensures
        compile_node(unit, NodeModel::Pattern(block), scope, globals, fps, clock, acc)
            == Compilation::Done(acc, clock),
{
    let at = position(block.definitions, "actions"@);
    lemma_position(block.definitions, "actions"@);
    if at >= 0 {
        match block.definitions[at].1 {
            ExprModel::Block(actions) => {
                match replay_mode(unit, scope + block.definitions, fps) {
                    Mode::Run(Replay::Cycles(times)) => {
                        lemma_replay_cycles_empty(unit, actions,
                            scope + block.definitions,
                            globals,
                            fps,
                            times as nat,
                            clock,
                            acc,
                        );
                    },
                    _ => {},
                }
            },
            _ => {},
        }
    }
}

} // verus!
