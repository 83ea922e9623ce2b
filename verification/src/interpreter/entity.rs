use super::callback::{compile_node, timeline_model, Callback, Compilation, TimedCallback};
use super::error::{CompileError, RuntimeError};
use super::evaluate::{eval_spec, Evaluable};
use super::float::{FloatBinary, FloatUnit};
use super::primitive::{agrees, Outcome, Primitive, Shape};
use super::{BulletMap, EntityMap, PathMap, PatternMap};
use crate::parser::parser::{
    exprs_model, lemma_model_variant, lookup, ArithmeticExpression, ExprModel, ExpressionType,
    Node, NodeModel, PatternData, ScopeModel, UnaryOperator, Values,
};
use vstd::prelude::*;
use vstd::string::StringExecFns;

verus! {

/// Two floating-point numbers, each as the bit pattern of a double.
#[derive(Debug, PartialEq, Eq, Clone, Copy, Structural)]
pub struct Vector2 {
    pub x: u64,
    pub y: u64,
}

/// The width and height of a hitbox.
#[derive(Debug, PartialEq, Eq, Clone, Copy, Structural)]
pub struct Size {
    pub x: u16,
    pub y: u16,
}

/// A colour by its red, green and blue parts.
#[derive(Debug, PartialEq, Eq, Clone, Copy, Structural)]
pub struct Color {
    pub x: u8,
    pub y: u8,
    pub z: u8,
}

/// The ways in which an entity may be given its velocity.
#[derive(Debug, PartialEq)]
pub enum VelocityType {
    Simple(Vector2),
    Acceleration(Vector2),
    Path(ExpressionType),
}

/// The shapes of a hitbox.
#[derive(Debug, PartialEq, Eq, Clone, Copy, Structural)]
pub enum HitboxType {
    Rectangle,
    Ellipse,
}

/// The area in which an entity can be hit.
#[derive(Debug, PartialEq, Eq, Clone, Copy, Structural)]
pub struct Hitbox {
    pub size: Size,
    pub offset: Vector2,
    pub hitbox_type: HitboxType,
}

/// What an entity does while it lives: it runs the pattern of this name,
/// or nothing.
#[derive(Debug, PartialEq, Clone)]
pub enum Behavior {
    Pattern(String),
    Simple,
}

/// One thing in the world. `rotation` is an angle in degrees as a
/// `FloatUnit` normalized it; the `position_fn` and `velocity_fn` scopes
/// bind `x` and `y`, which are evaluated every frame.
#[derive(Debug, PartialEq)]
pub struct Entity {
    pub position: Vector2,
    pub velocity: Vector2,
    pub rotation: u64,
    pub speed: Option<u64>,
    pub lifetime: u32,
    pub position_fn: Option<Values>,
    pub velocity_fn: Option<Values>,
    pub color: Color,
    pub hitbox: Hitbox,
    pub behavior: Behavior,
    pub instance_vars: Option<Values>,
}

/// A live entity with the frames it has lived and is to live.
#[derive(Debug, PartialEq)]
pub struct ExecutionEnvironment {
    pub elapsed: u32,
    pub duration: u32,
    pub current_wait: u32,
    pub entity: Entity,
}

/// Mathematical model of an entity.
pub struct EntityModel {
    pub position: Vector2,
    pub velocity: Vector2,
    pub rotation: u64,
    pub speed: Option<u64>,
    pub lifetime: u32,
    pub position_fn: Option<ScopeModel>,
    pub velocity_fn: Option<ScopeModel>,
    pub color: Color,
    pub hitbox: Hitbox,
    pub behavior: Option<Seq<char>>,
    pub instance_vars: Option<ScopeModel>,
}

/// Mathematical model of a live entity.
pub struct EnvironmentModel {
    pub elapsed: u32,
    pub duration: u32,
    pub current_wait: u32,
    pub entity: EntityModel,
}

/// The model of a scope that may be absent.
pub open spec fn scope_option_model(v: Option<Values>) -> Option<ScopeModel> {
    match v {
        Some(s) => Some(s.model()),
        None => None,
    }
}

/// The entity that nothing has been said of: at the origin and at rest,
/// heading along angle zero with no fixed speed, red, with a square hitbox
/// of side 3, living 600 frames and doing nothing.
pub open spec fn default_entity() -> EntityModel {
    EntityModel {
        position: Vector2 { x: 0, y: 0 },
        velocity: Vector2 { x: 0, y: 0 },
        rotation: 0,
        speed: None,
        lifetime: 600,
        position_fn: None,
        velocity_fn: None,
        color: Color { x: 255, y: 0, z: 0 },
        hitbox: Hitbox {
            size: Size { x: 3, y: 3 },
            offset: Vector2 { x: 0, y: 0 },
            hitbox_type: HitboxType::Rectangle,
        },
        behavior: None,
        instance_vars: None,
    }
}

impl Behavior {
    /// The mathematical model of this.
    pub open spec fn model(&self) -> Option<Seq<char>> {
        match self {
            Behavior::Pattern(name) => Some(name@),
            Behavior::Simple => None,
        }
    }
}

fn clone_scope_option(v: &Option<Values>) -> (r: Option<Values>)
    ensures
        scope_option_model(r) == scope_option_model(*v),
{
    match v {
        Some(s) => Some(s.clone()),
        None => None,
    }
}

impl Entity {
    /// The mathematical model of this.
    pub open spec fn model(&self) -> EntityModel {
        EntityModel {
            position: self.position,
            velocity: self.velocity,
            rotation: self.rotation,
            speed: self.speed,
            lifetime: self.lifetime,
            position_fn: scope_option_model(self.position_fn),
            velocity_fn: scope_option_model(self.velocity_fn),
            color: self.color,
            hitbox: self.hitbox,
            behavior: self.behavior.model(),
            instance_vars: scope_option_model(self.instance_vars),
        }
    }

    /// The default entity. (The all-zero bit pattern is the double 0.0.)
    pub fn new() -> (r: Self)
        ensures
            r.model() == default_entity(),
    {
        Entity {
            position: Vector2 { x: 0, y: 0 },
            velocity: Vector2 { x: 0, y: 0 },
            rotation: 0,
            speed: None,
            lifetime: 600,
            color: Color { x: 255, y: 0, z: 0 },
            hitbox: Hitbox {
                size: Size { x: 3, y: 3 },
                offset: Vector2 { x: 0, y: 0 },
                hitbox_type: HitboxType::Rectangle,
            },
            behavior: Behavior::Simple,
            position_fn: None,
            velocity_fn: None,
            instance_vars: None,
        }
    }

    /// A deep copy.
    pub fn clone(&self) -> (r: Self)
        ensures
            r.model() == self.model(),
    {
        Entity {
            position: self.position,
            velocity: self.velocity,
            rotation: self.rotation,
            speed: self.speed,
            lifetime: self.lifetime,
            color: self.color,
            hitbox: self.hitbox,
            behavior: match &self.behavior {
                Behavior::Pattern(name) => Behavior::Pattern(name.clone()),
                Behavior::Simple => Behavior::Simple,
            },
            position_fn: clone_scope_option(&self.position_fn),
            velocity_fn: clone_scope_option(&self.velocity_fn),
            instance_vars: clone_scope_option(&self.instance_vars),
        }
    }
}

impl ExecutionEnvironment {
    /// The mathematical model of this.
    pub open spec fn model(&self) -> EnvironmentModel {
        EnvironmentModel {
            elapsed: self.elapsed,
            duration: self.duration,
            current_wait: self.current_wait,
            entity: self.entity.model(),
        }
    }

    /// The entity `e` at the start of its life, which lasts `e.lifetime`
    /// frames.
    pub open spec fn spawned(e: EntityModel) -> EnvironmentModel {
        EnvironmentModel { elapsed: 0, duration: e.lifetime, current_wait: 0, entity: e }
    }

    /// How many frames the entity has yet to live.
    pub fn remaining(&self) -> (r: u32)
        ensures
            r == if self.elapsed < self.duration {
                self.duration - self.elapsed
            } else {
                0
            },
    {
        if self.elapsed < self.duration {
            self.duration - self.elapsed
        } else {
            0
        }
    }

    /// A copy of `e` at the start of its life.
    pub fn new(e: &Entity) -> (r: Self)
        ensures
            r.model() == Self::spawned(e.model()),
    {
        ExecutionEnvironment { elapsed: 0, duration: e.lifetime, current_wait: 0, entity: e.clone() }
    }
}

/// The double 10.0.
pub const DEFAULT_SPEED: u64 = 0x4024_0000_0000_0000;

/// The lifetime of an entity that names none, or none that is a number.
pub const DEFAULT_LIFETIME: u32 = 600;

/// The model of a result of evaluation.
pub open spec fn outcome_of(r: Result<Primitive, RuntimeError>) -> Outcome {
    match r {
        Ok(p) => Outcome::Value(p.shape()),
        Err(e) => Outcome::Fault(e.fault()),
    }
}

/// The model of the value of a field, where there is the field.
pub open spec fn field_model(field: Option<Result<Primitive, RuntimeError>>) -> Option<Outcome> {
    match field {
        Some(r) => Some(outcome_of(r)),
        None => None,
    }
}

/// The value of the field `name` in `scope`, where the scope has the field.
pub open spec fn field_spec<U: FloatUnit>(unit: U, scope: ScopeModel, name: Seq<char>) -> Option<
    Outcome,
> {
    match lookup(scope, name) {
        Some(e) => Some(eval_spec(unit, e, scope, scope.len())),
        None => None,
    }
}

/// `i` cut to its low 8 bits.
pub open spec fn low_8(i: i64) -> int {
    i as int % 0x100
}

/// `i` cut to its low 32 bits.
pub open spec fn low_32(i: i64) -> int {
    i as int % 0x1_0000_0000
}

/// The lifetime that a `lifetime` field with this value gives: an integer
/// counts by its low 32 bits, a floating-point number is cut to a whole
/// number by the `FloatUnit`, and what is no number gives the default.
pub open spec fn lifetime_spec<U: FloatUnit>(unit: U, field: Option<Outcome>) -> u32 {
    match field {
        Some(Outcome::Value(Shape::I64(i))) => low_32(i) as u32,
        Some(Outcome::Value(Shape::F64(x))) => unit.u32_value(x),
        _ => DEFAULT_LIFETIME,
    }
}

/// The point that a `position` or `velocity` field with this value gives:
/// the first two elements of a numeric vector, integers converted, and the
/// origin for what is no numeric vector of two elements or more.
pub open spec fn point_spec<U: FloatUnit>(unit: U, field: Option<Outcome>) -> Vector2 {
    match field {
        Some(Outcome::Value(Shape::FloatVec(v))) => if v.len() >= 2 {
            Vector2 { x: v[0], y: v[1] }
        } else {
            Vector2 { x: 0, y: 0 }
        },
        Some(Outcome::Value(Shape::IntVec(v))) => if v.len() >= 2 {
            Vector2 { x: unit.int_value(v[0]), y: unit.int_value(v[1]) }
        } else {
            Vector2 { x: 0, y: 0 }
        },
        _ => Vector2 { x: 0, y: 0 },
    }
}

/// The angle that a `rotation` field with this value gives: a number of
/// degrees as the `FloatUnit` normalizes it, and angle zero for what is no
/// number.
pub open spec fn rotation_spec<U: FloatUnit>(unit: U, field: Option<Outcome>) -> u64 {
    match field {
        Some(Outcome::Value(Shape::I64(i))) => unit.int_degrees_value(i),
        Some(Outcome::Value(Shape::F64(x))) => unit.degrees_value(x),
        _ => 0,
    }
}

/// The speed that a `speed` field with this value gives: without the field
/// there is no fixed speed, a number is the speed, an integer converted,
/// and what is no number gives the default speed.
pub open spec fn speed_spec<U: FloatUnit>(unit: U, field: Option<Outcome>) -> Option<u64> {
    match field {
        None => None,
        Some(Outcome::Value(Shape::I64(i))) => Some(unit.int_value(i)),
        Some(Outcome::Value(Shape::F64(x))) => Some(x),
        _ => Some(DEFAULT_SPEED),
    }
}

/// One part of a colour from the value of its expression: an integer
/// counts by its low 8 bits, a floating-point number as that share of 255,
/// cut to a whole number of at most 255, and what is no number gives 0.
pub open spec fn channel_spec<U: FloatUnit>(unit: U, o: Outcome) -> u8 {
    match o {
        Outcome::Value(Shape::I64(i)) => low_8(i) as u8,
        Outcome::Value(Shape::F64(x)) => {
            let scaled = unit.u32_value(
                unit.binary_value(FloatBinary::Mul, x, unit.int_value(255)),
            );
            if scaled > 255 {
                255u8
            } else {
                scaled as u8
            }
        },
        _ => 0,
    }
}

/// The low 32 bits of `i`.
fn low_u32(i: i64) -> (r: u32)
    ensures
        r == low_32(i),
{
    let biased: u64 = (i as i128 + 0x8000_0000_0000_0000) as u64;
    (biased % 0x1_0000_0000) as u32
}

/// The low 8 bits of `i`.
fn low_u8(i: i64) -> (r: u8)
    ensures
        r == low_8(i),
{
    let biased: u64 = (i as i128 + 0x8000_0000_0000_0000) as u64;
    (biased % 0x100) as u8
}

/// Evaluates the field `name` of `scope` in `scope`, where it has the
/// field.
pub fn eval_field<U: FloatUnit>(scope: &Values, name: &str, unit: &U) -> (r: Option<
    Result<Primitive, RuntimeError>,
>)
    ensures
        field_model(r) == field_spec(*unit, scope.model(), name@),
{
    let key = String::from_str(name);
    match scope.get(&key) {
        Some(e) => Some(e.eval(scope, unit)),
        None => None,
    }
}

/// The lifetime that the value of a `lifetime` field gives.
pub fn lifetime_of<U: FloatUnit>(field: &Option<Result<Primitive, RuntimeError>>, unit: &U) -> (r: u32)
    ensures
        r == lifetime_spec(*unit, field_model(*field)),
{
    match field {
        Some(Ok(Primitive::I64(i))) => low_u32(*i),
        Some(Ok(Primitive::F64(x))) => unit.to_u32(*x),
        _ => DEFAULT_LIFETIME,
    }
}

/// The point that the value of a `position` or `velocity` field gives.
pub fn point_of<U: FloatUnit>(field: &Option<Result<Primitive, RuntimeError>>, unit: &U) -> (r:
    Vector2)
    ensures
        r == point_spec(*unit, field_model(*field)),
{
    match field {
        Some(Ok(Primitive::FloatVec(v))) => if v.len() >= 2 {
            Vector2 { x: v[0], y: v[1] }
        } else {
            Vector2 { x: 0, y: 0 }
        },
        Some(Ok(Primitive::IntVec(v))) => if v.len() >= 2 {
            Vector2 { x: unit.from_int(v[0]), y: unit.from_int(v[1]) }
        } else {
            Vector2 { x: 0, y: 0 }
        },
        _ => Vector2 { x: 0, y: 0 },
    }
}

/// The angle that the value of a `rotation` field gives.
pub fn rotation_of<U: FloatUnit>(field: &Option<Result<Primitive, RuntimeError>>, unit: &U) -> (r: u64)
    ensures
        r == rotation_spec(*unit, field_model(*field)),
{
    match field {
        Some(Ok(Primitive::I64(i))) => unit.normalize_degrees_int(*i),
        Some(Ok(Primitive::F64(x))) => unit.normalize_degrees(*x),
        _ => 0,
    }
}

/// The speed that the value of a `speed` field gives.
pub fn speed_of<U: FloatUnit>(field: &Option<Result<Primitive, RuntimeError>>, unit: &U) -> (r: Option<
    u64,
>)
    ensures
        r == speed_spec(*unit, field_model(*field)),
{
    match field {
        None => None,
        Some(Ok(Primitive::I64(i))) => Some(unit.from_int(*i)),
        Some(Ok(Primitive::F64(x))) => Some(*x),
        _ => Some(DEFAULT_SPEED),
    }
}

/// One part of a colour from the value of its expression.
pub fn channel_of<U: FloatUnit>(value: &Result<Primitive, RuntimeError>, unit: &U) -> (r: u8)
    ensures
        r == channel_spec(*unit, outcome_of(*value)),
{
    match value {
        Ok(Primitive::I64(i)) => low_u8(*i),
        Ok(Primitive::F64(x)) => {
            let scaled = unit.to_u32(unit.binary(FloatBinary::Mul, *x, unit.from_int(255)));
            if scaled > 255 {
                255
            } else {
                scaled as u8
            }
        },
        _ => 0,
    }
}

/// The colour that the expression of a `color` field gives in `scope`: a
/// vector of three elements or more gives its first three as red, green
/// and blue, anything else gives red.
pub open spec fn color_spec<U: FloatUnit>(unit: U, e: ExprModel, scope: ScopeModel) -> Color {
    match e {
        ExprModel::Vector(es) => if es.len() >= 3 {
            Color {
                x: channel_spec(unit, eval_spec(unit, es[0], scope, scope.len())),
                y: channel_spec(unit, eval_spec(unit, es[1], scope, scope.len())),
                z: channel_spec(unit, eval_spec(unit, es[2], scope, scope.len())),
            }
        } else {
            default_entity().color
        },
        _ => default_entity().color,
    }
}

/// The bindings of the first `n` formal arguments to the actual ones at
/// the same place. A formal argument that is no variable binds nothing.
pub open spec fn align_prefix(formals: Seq<ExprModel>, actuals: Seq<ExprModel>, n: nat) -> ScopeModel
    decreases n,
{
    if n == 0 {
        Seq::empty()
    } else {
        let rest = align_prefix(formals, actuals, (n - 1) as nat);
        match formals[n - 1] {
            ExprModel::Variable(name) => rest.push((name, actuals[n - 1])),
            _ => rest,
        }
    }
}

/// The scope that binds the formal arguments of a path to the actual
/// arguments of a call by their place, as far as the shorter list goes.
pub open spec fn align_spec(formals: ExprModel, actuals: ExprModel) -> ScopeModel {
    match (formals, actuals) {
        (ExprModel::Vector(f), ExprModel::Vector(a)) => align_prefix(
            f,
            a,
            if f.len() <= a.len() {
                f.len()
            } else {
                a.len()
            },
        ),
        _ => Seq::empty(),
    }
}

/// The scope that a spawned entity carries: the scope that its spawn has
/// captured, laid over the globals.
pub open spec fn carried_scope(globals: ScopeModel, captured: Option<ScopeModel>) -> ScopeModel {
    match captured {
        Some(c) => globals + c,
        None => globals,
    }
}

/// The fields of the prefab that the `type` field of `base` names.
pub open spec fn prefab_spec(base: ScopeModel, bullets: BulletMap) -> Option<ScopeModel> {
    match lookup(base, "type"@) {
        Some(ExprModel::Variable(name)) => match bullets.lookup(name) {
            Some(prefab) => Some(prefab.definitions.model()),
            None => None,
        },
        _ => None,
    }
}

/// The scope in which the fields of a spawn are evaluated, outermost layer
/// first: the globals, the captured scope, the fields of the prefab that
/// the spawn's `type` names, and the fields of the spawn itself, so that
/// what the spawn says wins.
pub open spec fn merged_scope(
    fields: ScopeModel,
    bullets: BulletMap,
    globals: ScopeModel,
    captured: Option<ScopeModel>,
) -> ScopeModel {
    let outer = carried_scope(globals, captured);
    match prefab_spec(outer + fields, bullets) {
        Some(defaults) => outer + defaults + fields,
        None => outer + fields,
    }
}

/// The scope of the path that the field `name` calls: the arguments of the
/// call bound to the path's formal arguments, under the path's
/// definitions.
pub open spec fn path_binding(scope: ScopeModel, name: Seq<char>, paths: PathMap) -> Option<ScopeModel> {
    match lookup(scope, name) {
        Some(ExprModel::Call(f, args)) => match paths.lookup(f) {
            Some(path) => Some(align_spec(path.arguments.model(), *args) + path.definitions.model()),
            None => None,
        },
        _ => None,
    }
}

/// The entity that a spawn with these fields makes.
///
/// It has no behaviour and the default hitbox, and carries the captured
/// scope laid over the globals, where there is a captured scope. Its
/// paths are those that its `position_fn` and `velocity_fn` fields call.
/// Its lifetime, position, velocity, rotation, speed and colour are what
/// the fields of these names say in the merged scope.
pub open spec fn spawn_entity<U: FloatUnit>(
    unit: U,
    fields: ScopeModel,
    paths: PathMap,
    bullets: BulletMap,
    globals: ScopeModel,
    captured: Option<ScopeModel>,
) -> EntityModel {
    let scope = merged_scope(fields, bullets, globals, captured);
    EntityModel {
        position: point_spec(unit, field_spec(unit, scope, "position"@)),
        velocity: point_spec(unit, field_spec(unit, scope, "velocity"@)),
        rotation: rotation_spec(unit, field_spec(unit, scope, "rotation"@)),
        speed: speed_spec(unit, field_spec(unit, scope, "speed"@)),
        lifetime: lifetime_spec(unit, field_spec(unit, scope, "lifetime"@)),
        position_fn: path_binding(scope, "position_fn"@, paths),
        velocity_fn: path_binding(scope, "velocity_fn"@, paths),
        color: match lookup(scope, "color"@) {
            Some(c) => color_spec(unit, c, scope),
            None => default_entity().color,
        },
        hitbox: default_entity().hitbox,
        behavior: None,
        instance_vars: match captured {
            Some(c) => Some(globals + c),
            None => None,
        },
    }
}

fn bind_path(scope: &Values, name: &str, paths: &PathMap) -> (r: Option<Values>)
    ensures
        scope_option_model(r) == path_binding(scope.model(), name@, *paths),
{
    let key = String::from_str(name);
    match scope.get(&key) {
        Some(e) => {
            proof {
                lemma_model_variant(*e);
            }
            match e {
                ExpressionType::Expr(
                    ArithmeticExpression::Unary(UnaryOperator::FunctionCall(f), arguments),
                ) => match paths.get(f) {
                    Some(path) => {
                        let mut path_vals = Entity::align_function_args(&path.arguments, arguments);
                        path_vals.extend(path.definitions.clone());
                        Some(path_vals)
                    },
                    None => None,
                },
                ExpressionType::Expr(_) => None,
                _ => None,
            }
        },
        None => None,
    }
}

impl Entity {
    /// The timeline of this entity's behaviour: that of the pattern it
    /// names, compiled with `globals`, or none where it names no pattern
    /// that `patterns` knows.
    pub fn compile_behavior<U: FloatUnit>(
        &self,
        paths: &PathMap,
        patterns: &PatternMap,
        ents: &EntityMap,
        bullets: &BulletMap,
        globals: Values,
        fps: u16,
        unit: &U,
    ) -> (r: Result<Option<Vec<TimedCallback>>, CompileError>)
        ensures
            match self.model().behavior {
                Some(name) => match patterns.lookup(name) {
                    Some(pattern) => match compile_node(
                        *unit,
                        NodeModel::Pattern(pattern.block.model()),
                        Seq::empty(),
                        globals.model(),
                        fps,
                        0,
                        Seq::empty(),
                    ) {
                        Compilation::Done(entries, _) => r matches Ok(Some(v)) && timeline_model(v@)
                            == entries,
                        Compilation::Failed(f) => r matches Err(e) && e.fault() == f,
                    },
                    None => r matches Ok(None),
                },
                None => r matches Ok(None),
            },
    {
        match &self.behavior {
            Behavior::Pattern(name) => match patterns.get(name) {
                Some(pattern) => {
                    let node = Node::Pattern(
                        PatternData { block: pattern.block.clone() },
                    );
                    match node.create(paths, patterns, ents, bullets, &globals, fps, unit) {
                        Ok(v) => Ok(Some(v)),
                        Err(e) => Err(e),
                    }
                },
                None => Ok(None),
            },
            Behavior::Simple => Ok(None),
        }
    }

    /// The colour that the expression of a `color` field gives.
    pub fn extract_color<U: FloatUnit>(expression: &ExpressionType, values: &Values, unit: &U) -> (r:
        Color)
        ensures
            r == color_spec(*unit, expression.model(), values.model()),
    {
        match expression {
            ExpressionType::Vector(ve) => {
                if ve.len() >= 3 {
                    let x = channel_of(&ve[0].eval(values, unit), unit);
                    let y = channel_of(&ve[1].eval(values, unit), unit);
                    let z = channel_of(&ve[2].eval(values, unit), unit);
                    Color { x, y, z }
                } else {
                    Color { x: 255, y: 0, z: 0 }
                }
            },
            _ => {
                proof {
                    lemma_model_variant(*expression);
                }
                Color { x: 255, y: 0, z: 0 }
            },
        }
    }

    /// Binds the formal arguments `arg_list` of a path to the actual
    /// arguments `arg_vals` of a call by their place.
    pub fn align_function_args(arg_list: &ExpressionType, arg_vals: &ExpressionType) -> (r: Values)
        ensures
            r.model() == align_spec(arg_list.model(), arg_vals.model()),
    {
        let mut vals = Values::new();
        proof {
            lemma_model_variant(*arg_list);
            lemma_model_variant(*arg_vals);
        }
        if let ExpressionType::Vector(formals) = arg_list {
            if let ExpressionType::Vector(actuals) = arg_vals {
                let n = if formals.len() <= actuals.len() {
                    formals.len()
                } else {
                    actuals.len()
                };
                let ghost fm = arg_list.model()->Vector_0;
                let ghost am = arg_vals.model()->Vector_0;
                let mut i: usize = 0;
                while i < n
                    invariant
                        i <= n,
                        n <= formals@.len(),
                        n <= actuals@.len(),
                        fm == exprs_model(formals@),
                        am == exprs_model(actuals@),
                        vals.model() == align_prefix(fm, am, i as nat),
                    decreases n - i,
                {
                    proof {
                        lemma_model_variant(formals@[i as int]);
                    }
                    if let ExpressionType::Variable(lhs) = &formals[i] {
                        vals.insert(lhs.clone(), actuals[i].clone());
                    }
                    i += 1;
                }
            }
        }
        vals
    }

    /// The entity that a spawn with the fields `values` makes.
    ///
    /// The fields are evaluated in a scope of four layers, of which a later
    /// one wins over an earlier one: `globals`, the captured scope
    /// `instance_vals`, the fields of the prefab of `bullets` that the
    /// `type` field names, and the fields of the spawn. `lifetime`,
    /// `position`, `velocity`, `rotation`, `speed` and `color` are
    /// evaluated in that scope; one that cannot be evaluated or has the
    /// wrong type gives its default. A `position_fn` or `velocity_fn` field
    /// that calls a path of `paths` binds that path. The entity has no
    /// behaviour, and carries the captured scope laid over `globals`.
    pub fn from_values<U: FloatUnit>(
        values: &Values,
        paths: &PathMap,
        bullets: &BulletMap,
        globals: Values,
        instance_vals: Option<Values>,
        unit: &U,
    ) -> (r: Self)
        ensures
            r.model() == spawn_entity(
                *unit,
                values.model(),
                *paths,
                *bullets,
                globals.model(),
                scope_option_model(instance_vals),
            ),
    {
        let mut entity = Entity::new();
        let mut outer = globals;
        entity.instance_vars = match instance_vals {
            Some(captured) => {
                outer.extend(captured);
                Some(outer.clone())
            },
            None => None,
        };
        let mut base = outer.clone();
        base.extend(values.clone());
        let type_key = String::from_str("type");
        let mut scope = outer;
        match base.get(&type_key) {
            Some(e) => {
                proof {
                    lemma_model_variant(*e);
                }
                match e {
                    ExpressionType::Variable(name) => match bullets.get(name) {
                        Some(prefab) => {
                            scope.extend(prefab.definitions.clone());
                        },
                        None => {},
                    },
                    _ => {},
                }
            },
            None => {},
        }
        scope.extend(values.clone());
        let color_key = String::from_str("color");
        match scope.get(&color_key) {
            Some(c) => {
                entity.color = Entity::extract_color(c, &scope, unit);
            },
            None => {},
        }
        entity.lifetime = lifetime_of(&eval_field(&scope, "lifetime", unit), unit);
        entity.position_fn = bind_path(&scope, "position_fn", paths);
        entity.velocity_fn = bind_path(&scope, "velocity_fn", paths);
        entity.position = point_of(&eval_field(&scope, "position", unit), unit);
        entity.velocity = point_of(&eval_field(&scope, "velocity", unit), unit);
        entity.rotation = rotation_of(&eval_field(&scope, "rotation", unit), unit);
        entity.speed = speed_of(&eval_field(&scope, "speed", unit), unit);
        entity
    }
}

} // verus!
