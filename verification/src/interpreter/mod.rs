pub mod callback;
pub mod dispatch;
pub mod entity;
pub mod error;
pub mod evaluate;
pub mod float;
pub mod primitive;
pub mod ps_funcs;
pub mod registry;
pub mod utils;

use crate::parser::parser::{
    toplevel_model, BulletData, ExprModel, ExpressionType, HeadData, Node, NodeModel, PathData,
    PatternData, ScopeModel, Values,
};
use callback::{compile_node, timeline_model, Compilation, TimedCallback, TimedModel};
use callback::CallbackModel;
use dispatch::{
    born, born_of, deletions, dispatch, dispatched, dispatched_timeline,
    lemma_deletions_are_the_removed, lemma_deletions_rising, removed, spawn_total,
};
use entity::{
    field_spec, Entity, EntityModel, EnvironmentModel, ExecutionEnvironment, Vector2,
};
use error::CompileError;
use float::{FloatBinary, FloatUnit};
use primitive::{Outcome, Primitive, Shape};
use registry::Registry;
use utils::{
    lemma_swap_removed_all_aligned, lemma_swap_removed_all_kept, lemma_swap_removed_all_len,
    lemma_swap_removed_all_mapped, swap_remove_all, swap_removed_all,
};
use vstd::prelude::*;
use vstd::string::StringExecFns;

verus! {

/// The paths by their names.
pub type PathMap = Registry<PathData>;

/// The prefabricated entities by their names.
pub type EntityMap = Registry<Entity>;

/// The patterns by their names.
pub type PatternMap = Registry<PatternData>;

/// The bullets by their names.
pub type BulletMap = Registry<BulletData>;

/// The timelines of the live entities, one for each.
pub type Actions = Vec<Vec<TimedCallback>>;

/// Why the world could not be made or an entity not be spawned.
#[derive(Debug, PartialEq, Clone)]
pub enum IError {
    /// The parse result is no head node.
    FromParse,
    /// No prefab has this name.
    NoSuchPrefab,
    /// The pattern of the entity's behaviour does not compile.
    Compile(CompileError),
}

/// The world: the live entities with their timelines, and the paths,
/// patterns and bullets that the head node defines.
pub struct Interpreter<U: FloatUnit> {
    pub elapsed: u64,
    pub fps: u16,
    pub head: HeadData,
    pub entities: Vec<ExecutionEnvironment>,
    pub actions: Actions,
    pub paths: PathMap,
    pub prefabs: EntityMap,
    pub patterns: PatternMap,
    pub bullets: BulletMap,
    pub unit: U,
}

/// The kinds of definition that the world registers.
#[derive(Debug, PartialEq, Eq, Clone, Copy, Structural)]
pub enum Kind {
    Path,
    Pattern,
    Bullet,
}

/// Whether a node is a definition of this kind.
pub open spec fn is_kind(n: NodeModel, kind: Kind) -> bool {
    match kind {
        Kind::Path => n is Path,
        Kind::Pattern => n is Pattern,
        Kind::Bullet => n is Bullet,
    }
}

/// The latest definition of this name and kind among `defs`.
pub open spec fn latest(defs: Seq<(Seq<char>, NodeModel)>, name: Seq<char>, kind: Kind) -> Option<
    NodeModel,
>
    decreases defs.len(),
{
    if defs.len() == 0 {
        None
    } else if defs.last().0 == name && is_kind(defs.last().1, kind) {
        Some(defs.last().1)
    } else {
        latest(defs.drop_last(), name, kind)
    }
}

/// The model of what a registry of paths holds under `name`, as a node.
pub open spec fn path_entry(paths: PathMap, name: Seq<char>) -> Option<NodeModel> {
    match paths.lookup(name) {
        Some(p) => Some(NodeModel::Path(p.arguments.model(), p.definitions.model())),
        None => None,
    }
}

/// The model of what a registry of patterns holds under `name`, as a node.
pub open spec fn pattern_entry(patterns: PatternMap, name: Seq<char>) -> Option<NodeModel> {
    match patterns.lookup(name) {
        Some(p) => Some(NodeModel::Pattern(p.block.model())),
        None => None,
    }
}

/// The model of what a registry of bullets holds under `name`, as a node.
pub open spec fn bullet_entry(bullets: BulletMap, name: Seq<char>) -> Option<NodeModel> {
    match bullets.lookup(name) {
        Some(b) => Some(NodeModel::Bullet(b.definitions.model())),
        None => None,
    }
}

/// What is registered under a name once `defs` have been registered over
/// what was there `before`.
pub open spec fn registered(
    before: Option<NodeModel>,
    defs: Seq<(Seq<char>, NodeModel)>,
    name: Seq<char>,
    kind: Kind,
) -> Option<NodeModel> {
    match latest(defs, name, kind) {
        Some(n) => Some(n),
        None => before,
    }
}

/// The model of an angle towards the player: the double 0.0, as there is
/// no player.
pub open spec fn towards_player_model() -> ExprModel {
    ExprModel::Float(0)
}

/// The globals of an entity at `position`.
pub open spec fn globals_model(position: Vector2) -> ScopeModel {
    seq![
        ("towards_player"@, towards_player_model()),
        (
            "entity_position"@,
            ExprModel::Vector(seq![ExprModel::Float(position.x), ExprModel::Float(position.y)]),
        ),
    ]
}

/// The models of the live entities.
pub open spec fn environments_model(v: Seq<ExecutionEnvironment>) -> Seq<EnvironmentModel> {
    Seq::new(v.len(), |i: int| v[i].model())
}

/// The models of the timelines.
pub open spec fn actions_model(v: Seq<Vec<TimedCallback>>) -> Seq<Seq<TimedModel>> {
    Seq::new(v.len(), |i: int| timeline_model(v[i]@))
}

/// The timeline of the behaviour of an entity: that of the pattern it
/// names, compiled with the globals, and an empty one where it names no
/// pattern that is registered.
pub open spec fn behavior_timeline<U: FloatUnit>(
    unit: U,
    behavior: Option<Seq<char>>,
    patterns: PatternMap,
    globals: ScopeModel,
    fps: u16,
) -> Compilation {
    match behavior {
        Some(name) => match patterns.lookup(name) {
            Some(pattern) => compile_node(
                unit,
                NodeModel::Pattern(pattern.block.model()),
                Seq::empty(),
                globals,
                fps,
                0,
                Seq::empty(),
            ),
            None => Compilation::Done(Seq::empty(), 0),
        },
        None => Compilation::Done(Seq::empty(), 0),
    }
}

/// The scope in which the path `path` of the entity `e` is evaluated at
/// this frame, outermost layer first: the angle towards the player, the
/// scope that the entity carries, the bindings of the path itself, and the
/// frames that the entity has lived, as `t`.
pub open spec fn motion_scope(path: ScopeModel, e: EnvironmentModel) -> ScopeModel {
    let carried = match e.entity.instance_vars {
        Some(v) => v,
        None => Seq::empty(),
    };
    (seq![("towards_player"@, towards_player_model())] + carried + path).push(
        ("t"@, ExprModel::Int(e.elapsed as i64)),
    )
}

/// The number that a field of a path with this value gives: a
/// floating-point number is itself, an integer is converted, and what is
/// no number gives the double 0.0.
pub open spec fn numeric_spec<U: FloatUnit>(unit: U, field: Option<Outcome>) -> u64 {
    match field {
        Some(Outcome::Value(Shape::F64(x))) => x,
        Some(Outcome::Value(Shape::I64(i))) => unit.int_value(i),
        _ => 0,
    }
}

/// The point that the fields `x` and `y` of `scope` give.
pub open spec fn path_point_spec<U: FloatUnit>(unit: U, scope: ScopeModel) -> Vector2 {
    Vector2 {
        x: numeric_spec(unit, field_spec(unit, scope, "x"@)),
        y: numeric_spec(unit, field_spec(unit, scope, "y"@)),
    }
}

/// The velocity of the fixed speed `speed` along the angle `rotation`.
pub open spec fn heading<U: FloatUnit>(unit: U, speed: u64, rotation: u64) -> Vector2 {
    Vector2 {
        x: unit.binary_value(FloatBinary::Mul, speed, unit.cos_value(rotation)),
        y: unit.binary_value(FloatBinary::Mul, speed, unit.sin_value(rotation)),
    }
}

/// `position` moved by `velocity` over one frame:
/// `position + velocity * (1 / fps)`.
pub open spec fn integrated<U: FloatUnit>(unit: U, position: Vector2, velocity: Vector2, fps: u16) -> Vector2 {
    let frame = unit.binary_value(FloatBinary::Div, unit.int_value(1), unit.int_value(fps as i64));
    Vector2 {
        x: unit.binary_value(
            FloatBinary::Add,
            position.x,
            unit.binary_value(FloatBinary::Mul, velocity.x, frame),
        ),
        y: unit.binary_value(
            FloatBinary::Add,
            position.y,
            unit.binary_value(FloatBinary::Mul, velocity.y, frame),
        ),
    }
}

/// The entity `e` after the motion of one frame.
///
/// Nothing but position and velocity changes. An entity on a position
/// path keeps its velocity and is put where the path says. Any other
/// entity takes the velocity of its fixed speed along its rotation, if it
/// has one, then that which its velocity path says, if it has one, and
/// moves by its velocity over one frame.
pub open spec fn motion<U: FloatUnit>(unit: U, fps: u16, e: EnvironmentModel) -> EnvironmentModel {
    match e.entity.position_fn {
        Some(path) => EnvironmentModel {
            entity: EntityModel {
                position: path_point_spec(unit, motion_scope(path, e)),
                ..e.entity
            },
            ..e
        },
        None => {
            let fixed = match e.entity.speed {
                Some(speed) => heading(unit, speed, e.entity.rotation),
                None => e.entity.velocity,
            };
            let velocity = match e.entity.velocity_fn {
                Some(path) => path_point_spec(unit, motion_scope(path, e)),
                None => fixed,
            };
            EnvironmentModel {
                entity: EntityModel {
                    position: integrated(unit, e.entity.position, velocity, fps),
                    velocity,
                    ..e.entity
                },
                ..e
            }
        },
    }
}

/// The number that the field `name` of a path gives at this frame.
fn numeric_field<U: FloatUnit>(scope: &Values, name: &str, unit: &U) -> (r: u64)
    ensures
        r == numeric_spec(*unit, field_spec(*unit, scope.model(), name@)),
{
    match entity::eval_field(scope, name, unit) {
        Some(Ok(Primitive::I64(i))) => unit.from_int(i),
        Some(Ok(Primitive::F64(x))) => x,
        _ => 0,
    }
}

/// The point that the path `path` of the entity `env` gives at this frame.
fn path_point<U: FloatUnit>(path: &Values, env: &ExecutionEnvironment, unit: &U) -> (r: Vector2)
    ensures
        r == path_point_spec(*unit, motion_scope(path.model(), env.model())),
{
    let mut scope = Values::new();
    scope.insert(String::from_str("towards_player"), Interpreter::<U>::angle_towards_player());
    match &env.entity.instance_vars {
        Some(v) => {
            scope.extend(v.clone());
        },
        None => {
            assert(scope.model() + Seq::empty() =~= scope.model());
        },
    }
    scope.extend(path.clone());
    scope.insert(String::from_str("t"), ExpressionType::Int(env.elapsed as i64));
    assert(scope.model() =~= motion_scope(path.model(), env.model()));
    Vector2 { x: numeric_field(&scope, "x", unit), y: numeric_field(&scope, "y", unit) }
}

/// Moves one entity by one frame.
fn move_entity<U: FloatUnit>(env: &mut ExecutionEnvironment, fps: u16, unit: &U)
    ensures
        final(env).model() == motion(*unit, fps, old(env).model()),
{
    let position = match &env.entity.position_fn {
        Some(pos_fn) => path_point(pos_fn, env, unit),
        None => {
            let mut velocity = env.entity.velocity;
            match env.entity.speed {
                Some(speed) => {
                    velocity =
                    Vector2 {
                        x: unit.binary(FloatBinary::Mul, speed, unit.angle_cos(env.entity.rotation)),
                        y: unit.binary(FloatBinary::Mul, speed, unit.angle_sin(env.entity.rotation)),
                    };
                },
                None => {},
            }
            match &env.entity.velocity_fn {
                Some(vel_fn) => {
                    velocity = path_point(vel_fn, env, unit);
                },
                None => {},
            }
            env.entity.velocity = velocity;
            let step = unit.binary(FloatBinary::Div, unit.from_int(1), unit.from_int(fps as i64));
            Vector2 {
                x: unit.binary(
                    FloatBinary::Add,
                    env.entity.position.x,
                    unit.binary(FloatBinary::Mul, velocity.x, step),
                ),
                y: unit.binary(
                    FloatBinary::Add,
                    env.entity.position.y,
                    unit.binary(FloatBinary::Mul, velocity.y, step),
                ),
            }
        },
    };
    env.entity.position = position;
}

/// The entities after the dispatch of one tick.
pub open spec fn dispatched_pool(m: Seq<EnvironmentModel>) -> Seq<EnvironmentModel> {
    Seq::new(m.len(), |i: int| dispatched(m[i]))
}

/// The timelines after the dispatch of one tick.
pub open spec fn dispatched_timelines(m: Seq<EnvironmentModel>, ts: Seq<Seq<TimedModel>>) -> Seq<
    Seq<TimedModel>,
> {
    Seq::new(m.len(), |i: int| dispatched_timeline(m[i], ts[i]))
}

/// The entities after the motion of one tick.
pub open spec fn moved_pool<U: FloatUnit>(unit: U, fps: u16, es: Seq<EnvironmentModel>) -> Seq<
    EnvironmentModel,
> {
    Seq::new(es.len(), |i: int| motion(unit, fps, es[i]))
}

/// The entities that the spawns `spawns` bring into the world, in their
/// order.
pub open spec fn born_pool<U: FloatUnit>(
    unit: U,
    spawns: Seq<CallbackModel>,
    paths: PathMap,
    bullets: BulletMap,
) -> Seq<EnvironmentModel> {
    Seq::new(spawns.len(), |j: int| born(unit, spawns[j], paths, bullets))
}

/// Whether one tick takes the entities `before_e` with the timelines
/// `before_a` to `after_e` with `after_a`.
///
/// The entities move first. Then each that has not lived out its life
/// fires and loses its due entries and grows one frame older. Those that
/// have lived out their life or were asked to go are swap-removed, from
/// both pools at the same places. What was spawned comes last: one entity
/// for each spawn that was fired, in the order of the firing, each at the
/// start of its life and with an empty timeline.
pub open spec fn stepped<U: FloatUnit>(
    unit: U,
    fps: u16,
    paths: PathMap,
    bullets: BulletMap,
    before_e: Seq<EnvironmentModel>,
    before_a: Seq<Seq<TimedModel>>,
    after_e: Seq<EnvironmentModel>,
    after_a: Seq<Seq<TimedModel>>,
) -> bool {
    let m = moved_pool(unit, fps, before_e);
    let gone = deletions(m, before_a, m.len());
    let spawns = spawn_total(m, before_a, m.len());
    &&& after_e == swap_removed_all(dispatched_pool(m), gone) + born_pool(
        unit,
        spawns,
        paths,
        bullets,
    )
    &&& after_a == swap_removed_all(dispatched_timelines(m, before_a), gone) + Seq::new(
        spawns.len(),
        |j: int| Seq::<TimedModel>::empty(),
    )
}

/// Whether `e` with the timeline `t` is the entity at the place `i` of the
/// moved pool `m` after its dispatch, with its own timeline less the
/// entries that fired, and that entity stays in the world.
pub open spec fn own_pair(
    m: Seq<EnvironmentModel>,
    ts: Seq<Seq<TimedModel>>,
    i: int,
    e: EnvironmentModel,
    t: Seq<TimedModel>,
) -> bool {
    &&& 0 <= i < m.len()
    &&& !removed(m[i], ts[i])
    &&& e == dispatched(m[i])
    &&& t == dispatched_timeline(m[i], ts[i])
}

/// Whether `e` with the timeline `t` is one of the entities of the moved
/// pool `m` that stay in the world, with its own timeline.
pub open spec fn kept_pair(
    m: Seq<EnvironmentModel>,
    ts: Seq<Seq<TimedModel>>,
    e: EnvironmentModel,
    t: Seq<TimedModel>,
) -> bool {
    exists|i: int| #[trigger] own_pair(m, ts, i, e, t)
}

/// A tick keeps every entity with its own timeline. The two pools stay
/// equally long. As many pairs stay as entities were not removed, and they
/// stand first: each is an entity of before that was not removed, moved and
/// dispatched, with its own timeline less the entries that fired. The
/// newcomers follow, each with an empty timeline.
pub proof fn lemma_step_keeps_pairs<U: FloatUnit>(
    unit: U,
    fps: u16,
    paths: PathMap,
    bullets: BulletMap,
    before_e: Seq<EnvironmentModel>,
    before_a: Seq<Seq<TimedModel>>,
    after_e: Seq<EnvironmentModel>,
    after_a: Seq<Seq<TimedModel>>,
)
    requires
        before_e.len() == before_a.len(),
        before_e.len() <= usize::MAX,
        stepped(unit, fps, paths, bullets, before_e, before_a, after_e, after_a),
    ensures
        after_e.len() == after_a.len(),
        ({
            let m = moved_pool(unit, fps, before_e);
            let kept = before_e.len() - deletions(m, before_a, m.len()).len();
            &&& 0 <= kept <= after_e.len()
            &&& forall|k: int|
                0 <= k < kept ==> #[trigger] kept_pair(m, before_a, after_e[k], after_a[k])
            &&& forall|k: int| kept <= k < after_e.len() ==> (#[trigger] after_a[k]).len() == 0
        }),
{
    let m = moved_pool(unit, fps, before_e);
    let gone = deletions(m, before_a, m.len());
    let es = dispatched_pool(m);
    let ts = dispatched_timelines(m, before_a);
    lemma_deletions_rising(m, before_a, m.len());
    lemma_swap_removed_all_len(es, gone);
    lemma_swap_removed_all_len(ts, gone);
    lemma_swap_removed_all_aligned(es, ts, gone);
    let kept = before_e.len() - gone.len();
    assert forall|k: int| 0 <= k < kept implies #[trigger] kept_pair(
        m,
        before_a,
        after_e[k],
        after_a[k],
    ) by {
        let pairs = es.zip_with(ts);
        let i = lemma_swap_removed_all_kept(pairs, gone, k);
        lemma_deletions_are_the_removed(m, before_a, m.len(), i);
        assert(swap_removed_all(pairs, gone)[k] == (after_e[k], after_a[k]));
        assert(pairs[i] == (es[i], ts[i]));
        assert(own_pair(m, before_a, i, after_e[k], after_a[k]));
    }
}

impl<U: FloatUnit> Interpreter<U> {
    /// Whether every live entity has its timeline.
    pub open spec fn wf(&self) -> bool {
        self.entities@.len() == self.actions@.len()
    }

    /// The world of the definitions of `hd`, without entities, at 120
    /// frames per second.
    pub fn new(hd: HeadData, unit: U) -> (r: Self)
        ensures
            r.wf(),
            r.unit == unit,
            r.head == hd,
            r.elapsed == 0,
            r.fps == 120,
            r.entities@.len() == 0,
            r.prefabs.entries@.len() == 0,
            forall|name: Seq<char>| #[trigger]
                path_entry(r.paths, name) == latest(toplevel_model(hd.definitions@), name, Kind::Path),
            forall|name: Seq<char>| #[trigger]
                pattern_entry(r.patterns, name) == latest(
                    toplevel_model(hd.definitions@),
                    name,
                    Kind::Pattern,
                ),
            forall|name: Seq<char>| #[trigger]
                bullet_entry(r.bullets, name) == latest(
                    toplevel_model(hd.definitions@),
                    name,
                    Kind::Bullet,
                ),
    {
        let mut i = Interpreter {
            elapsed: 0,
            fps: 120,
            head: hd,
            entities: Vec::new(),
            actions: Vec::new(),
            paths: Registry::new(),
            prefabs: Registry::new(),
            patterns: Registry::new(),
            bullets: Registry::new(),
            unit,
        };
        i.initialize();
        i
    }

    /// The world of a parse result, which must be a head node.
    pub fn from_parse_result(n: Node, unit: U) -> (r: Result<Self, IError>)
        ensures
            match r {
                Ok(world) => {
                    &&& n matches Node::Head(hd)
                    &&& world.wf()
                    &&& world.unit == unit
                    &&& world.head == hd
                    &&& world.elapsed == 0
                    &&& world.fps == 120
                    &&& world.entities@.len() == 0
                    &&& world.prefabs.entries@.len() == 0
                    &&& forall|name: Seq<char>| #[trigger]
                        path_entry(world.paths, name) == latest(
                            toplevel_model(hd.definitions@),
                            name,
                            Kind::Path,
                        )
                    &&& forall|name: Seq<char>| #[trigger]
                        pattern_entry(world.patterns, name) == latest(
                            toplevel_model(hd.definitions@),
                            name,
                            Kind::Pattern,
                        )
                    &&& forall|name: Seq<char>| #[trigger]
                        bullet_entry(world.bullets, name) == latest(
                            toplevel_model(hd.definitions@),
                            name,
                            Kind::Bullet,
                        )
                },
                Err(e) => e is FromParse && !(n is Head),
            },
    {
        match n {
            Node::Head(hd) => Ok(Interpreter::new(hd, unit)),
            _ => Err(IError::FromParse),
        }
    }

    /// Registers the paths, patterns and bullets of the head node, each
    /// under its name; a later definition of a name and kind replaces an
    /// earlier one.
    pub fn initialize(&mut self)
        ensures
            final(self).unit == old(self).unit,
            final(self).elapsed == old(self).elapsed,
            final(self).fps == old(self).fps,
            final(self).head == old(self).head,
            final(self).entities == old(self).entities,
            final(self).actions == old(self).actions,
            final(self).prefabs == old(self).prefabs,
            forall|name: Seq<char>| #[trigger]
                path_entry(final(self).paths, name) == registered(
                    path_entry(old(self).paths, name),
                    toplevel_model(old(self).head.definitions@),
                    name,
                    Kind::Path,
                ),
            forall|name: Seq<char>| #[trigger]
                pattern_entry(final(self).patterns, name) == registered(
                    pattern_entry(old(self).patterns, name),
                    toplevel_model(old(self).head.definitions@),
                    name,
                    Kind::Pattern,
                ),
            forall|name: Seq<char>| #[trigger]
                bullet_entry(final(self).bullets, name) == registered(
                    bullet_entry(old(self).bullets, name),
                    toplevel_model(old(self).head.definitions@),
                    name,
                    Kind::Bullet,
                ),
    {
        let ghost defs = toplevel_model(self.head.definitions@);
        let mut i: usize = 0;
        assert(defs.take(0) =~= Seq::empty());
        while i < self.head.definitions.len()
            invariant
                i <= self.head.definitions@.len(),
                self.unit == old(self).unit,
                self.elapsed == old(self).elapsed,
                self.fps == old(self).fps,
                self.head == old(self).head,
                self.entities == old(self).entities,
                self.actions == old(self).actions,
                self.prefabs == old(self).prefabs,
                defs == toplevel_model(self.head.definitions@),
                forall|name: Seq<char>| #[trigger]
                    path_entry(self.paths, name) == registered(
                        path_entry(old(self).paths, name),
                        defs.take(i as int),
                        name,
                        Kind::Path,
                    ),
                forall|name: Seq<char>| #[trigger]
                    pattern_entry(self.patterns, name) == registered(
                        pattern_entry(old(self).patterns, name),
                        defs.take(i as int),
                        name,
                        Kind::Pattern,
                    ),
                forall|name: Seq<char>| #[trigger]
                    bullet_entry(self.bullets, name) == registered(
                        bullet_entry(old(self).bullets, name),
                        defs.take(i as int),
                        name,
                        Kind::Bullet,
                    ),
            decreases self.head.definitions@.len() - i,
        {
            let ghost next = defs.take(i + 1);
            assert(next.drop_last() =~= defs.take(i as int));
            assert(next.last() == defs[i as int]);
            let k = &self.head.definitions[i].0;
            match &self.head.definitions[i].1 {
                Node::Path(pd) => Self::register_path(k, &mut self.paths, pd),
                Node::Pattern(pd) => Self::register_pattern(k, &mut self.patterns, pd),
                Node::Bullet(bd) => Self::register_bullet(k, &mut self.bullets, bd),
                _ => {},
            }
            i += 1;
        }
        assert(defs.take(i as int) =~= defs);
    }

    fn register_path(name: &String, paths: &mut PathMap, pd: &PathData)
        ensures
            path_entry(*final(paths), name@) == Some(
                NodeModel::Path(pd.arguments.model(), pd.definitions.model()),
            ),
            forall|other: Seq<char>|
                other != name@ ==> #[trigger] path_entry(*final(paths), other) == path_entry(
                    *old(paths),
                    other,
                ),
    {
        paths.insert(
            name.clone(),
            PathData { arguments: pd.arguments.clone(), definitions: pd.definitions.clone() },
        );
    }

    fn register_pattern(name: &String, patterns: &mut PatternMap, pd: &PatternData)
        ensures
            pattern_entry(*final(patterns), name@) == Some(NodeModel::Pattern(pd.block.model())),
            forall|other: Seq<char>|
                other != name@ ==> #[trigger] pattern_entry(*final(patterns), other) == pattern_entry(
                    *old(patterns),
                    other,
                ),
    {
        patterns.insert(name.clone(), PatternData { block: pd.block.clone() });
    }

    fn register_bullet(name: &String, bullets: &mut BulletMap, bd: &BulletData)
        ensures
            bullet_entry(*final(bullets), name@) == Some(NodeModel::Bullet(bd.definitions.model())),
            forall|other: Seq<char>|
                other != name@ ==> #[trigger] bullet_entry(*final(bullets), other) == bullet_entry(
                    *old(bullets),
                    other,
                ),
    {
        bullets.insert(name.clone(), BulletData { definitions: bd.definitions.clone() });
    }

    /// Adds a copy of `entity` to the world, with the timeline of its
    /// behaviour. Where that does not compile, the world stays as it was.
    pub fn spawn_direct(&mut self, entity: &Entity) -> (r: Result<(), IError>)
        requires
            old(self).wf(),
        ensures
            final(self).wf(),
            final(self).unit == old(self).unit,
            final(self).head == old(self).head,
            final(self).elapsed == old(self).elapsed,
            final(self).fps == old(self).fps,
            final(self).paths == old(self).paths,
            final(self).patterns == old(self).patterns,
            final(self).prefabs == old(self).prefabs,
            final(self).bullets == old(self).bullets,
            match behavior_timeline(
                old(self).unit,
                entity.model().behavior,
                old(self).patterns,
                globals_model(entity.position),
                old(self).fps,
            ) {
                Compilation::Done(entries, _) => {
                    &&& r is Ok
                    &&& environments_model(final(self).entities@) == environments_model(
                        old(self).entities@,
                    ).push(ExecutionEnvironment::spawned(entity.model()))
                    &&& actions_model(final(self).actions@) == actions_model(old(self).actions@).push(
                        entries,
                    )
                },
                Compilation::Failed(f) => {
                    &&& r matches Err(IError::Compile(e)) && e.fault() == f
                    &&& final(self).entities == old(self).entities
                    &&& final(self).actions == old(self).actions
                },
            },
    {
        let globals = Self::create_globals(entity.position);
        let timeline = match entity.compile_behavior(
            &self.paths,
            &self.patterns,
            &self.prefabs,
            &self.bullets,
            globals,
            self.fps,
            &self.unit,
        ) {
            Ok(Some(timeline)) => timeline,
            Ok(None) => {
                let empty: Vec<TimedCallback> = Vec::new();
                assert(timeline_model(empty@) =~= Seq::empty());
                empty
            },
            Err(e) => {
                return Err(IError::Compile(e));
            },
        };
        let ghost entries = timeline_model(timeline@);
        self.entities.push(ExecutionEnvironment::new(entity));
        self.actions.push(timeline);
        assert(environments_model(self.entities@) =~= environments_model(old(self).entities@).push(
            ExecutionEnvironment::spawned(entity.model()),
        ));
        assert(actions_model(self.actions@) =~= actions_model(old(self).actions@).push(entries));
        Ok(())
    }

    /// Adds a copy of the prefab called `name` to the world, with an empty
    /// timeline.
    pub fn spawn_named(&mut self, name: String) -> (r: Result<(), IError>)
        requires
            old(self).wf(),
        ensures
            final(self).wf(),
            final(self).unit == old(self).unit,
            final(self).head == old(self).head,
            final(self).elapsed == old(self).elapsed,
            final(self).fps == old(self).fps,
            final(self).paths == old(self).paths,
            final(self).patterns == old(self).patterns,
            final(self).prefabs == old(self).prefabs,
            final(self).bullets == old(self).bullets,
            match old(self).prefabs.lookup(name@) {
                Some(prefab) => {
                    &&& r is Ok
                    &&& environments_model(final(self).entities@) == environments_model(
                        old(self).entities@,
                    ).push(ExecutionEnvironment::spawned(prefab.model()))
                    &&& actions_model(final(self).actions@) == actions_model(old(self).actions@).push(
                        Seq::empty(),
                    )
                },
                None => {
                    &&& r matches Err(IError::NoSuchPrefab)
                    &&& final(self).entities == old(self).entities
                    &&& final(self).actions == old(self).actions
                },
            },
    {
        let env = match self.prefabs.get(&name) {
            Some(prefab) => ExecutionEnvironment::new(prefab),
            None => {
                return Err(IError::NoSuchPrefab);
            },
        };
        let ghost model = env.model();
        self.entities.push(env);
        let empty: Vec<TimedCallback> = Vec::new();
        assert(timeline_model(empty@) =~= Seq::empty());
        self.actions.push(empty);
        assert(environments_model(self.entities@) =~= environments_model(old(self).entities@).push(
            model,
        ));
        assert(actions_model(self.actions@) =~= actions_model(old(self).actions@).push(Seq::empty()));
        Ok(())
    }

    /// Moves every entity by one frame, in pool order.
    ///
    /// An entity with a position path is put where the path's `x` and
    /// `y` say at the frames it has lived. Any other entity gets the
    /// velocity of its fixed speed along its rotation, if it has one, then
    /// that of its velocity path, if it has one, and moves by its velocity
    /// over one frame. A path value that is no number counts as 0.0.
    pub fn move_entities(exec: &mut Vec<ExecutionEnvironment>, fps: u16, unit: &U)
        ensures
            final(exec)@.len() == old(exec)@.len(),
            forall|i: int|
                0 <= i < old(exec)@.len() ==> (#[trigger] final(exec)@[i]).model() == motion(
                    *unit,
                    fps,
                    old(exec)@[i].model(),
                ),
    {
        let mut i: usize = 0;
        while i < exec.len()
            invariant
                i <= exec@.len(),
                exec@.len() == old(exec)@.len(),
                forall|k: int|
                    0 <= k < i ==> (#[trigger] exec@[k]).model() == motion(
                        *unit,
                        fps,
                        old(exec)@[k].model(),
                    ),
                forall|k: int| i <= k < exec@.len() ==> exec@[k] == old(exec)@[k],
            decreases exec@.len() - i,
        {
            move_entity(&mut exec[i], fps, unit);
            i += 1;
        }
    }

    /// Advances the world by one tick.
    pub fn step(&mut self)
        requires
            old(self).wf(),
            old(self).elapsed < u64::MAX,
        ensures
            final(self).wf(),
            final(self).elapsed == old(self).elapsed + 1,
            final(self).fps == old(self).fps,
            final(self).head == old(self).head,
            final(self).paths == old(self).paths,
            final(self).patterns == old(self).patterns,
            final(self).prefabs == old(self).prefabs,
            final(self).bullets == old(self).bullets,
            final(self).unit == old(self).unit,
            stepped(
                old(self).unit,
                old(self).fps,
                old(self).paths,
                old(self).bullets,
                environments_model(old(self).entities@),
                actions_model(old(self).actions@),
                environments_model(final(self).entities@),
                actions_model(final(self).actions@),
            ),
    {
        let mut pooled_new_actions: Actions = Vec::new();
        let mut pooled_new_entities: Vec<ExecutionEnvironment> = Vec::new();
        let mut batched_deletions: Vec<usize> = Vec::new();
        let ghost before_e = environments_model(self.entities@);
        let ghost before_a = actions_model(self.actions@);

        Self::move_entities(&mut self.entities, self.fps, &self.unit);

        let ghost m = environments_model(self.entities@);
        let n = self.entities.len();
        let mut i: usize = 0;
        while i < n
            invariant
                i <= n,
                n == m.len(),
                self.entities@.len() == n,
                self.actions@.len() == n,
                before_a.len() == n,
                self.elapsed == old(self).elapsed,
                self.fps == old(self).fps,
                self.head == old(self).head,
                self.paths == old(self).paths,
                self.patterns == old(self).patterns,
                self.prefabs == old(self).prefabs,
                self.bullets == old(self).bullets,
                self.unit == old(self).unit,
                forall|k: int|
                    0 <= k < i ==> (#[trigger] self.entities@[k]).model() == dispatched(m[k]),
                forall|k: int|
                    0 <= k < i ==> timeline_model((#[trigger] self.actions@[k])@)
                        == dispatched_timeline(m[k], before_a[k]),
                forall|k: int| i <= k < n ==> (#[trigger] self.entities@[k]).model() == m[k],
                forall|k: int|
                    i <= k < n ==> timeline_model((#[trigger] self.actions@[k])@) == before_a[k],
                batched_deletions@ == deletions(m, before_a, i as nat),
                pooled_new_entities@.len() == spawn_total(m, before_a, i as nat).len(),
                pooled_new_actions@.len() == pooled_new_entities@.len(),
                forall|j: int|
                    0 <= j < pooled_new_entities@.len() ==> born_of(
                        self.unit,
                        spawn_total(m, before_a, i as nat)[j],
                        self.paths,
                        self.bullets,
                        (#[trigger] pooled_new_entities@[j]).model(),
                    ) && pooled_new_actions@[j]@.len() == 0,
            decreases n - i,
        {
            let deleted = dispatch(
                &mut self.entities[i],
                &mut self.actions[i],
                &self.paths,
                &self.patterns,
                &self.prefabs,
                &self.bullets,
                self.fps,
                &self.unit,
                &mut pooled_new_entities,
                &mut pooled_new_actions,
            );
            if deleted {
                batched_deletions.push(i);
            }
            i += 1;
        }
        proof {
            lemma_deletions_rising(m, before_a, n as nat);
            lemma_swap_removed_all_mapped(
                self.entities@,
                |e: ExecutionEnvironment| e.model(),
                batched_deletions@,
            );
            lemma_swap_removed_all_mapped(
                self.actions@,
                |t: Vec<TimedCallback>| timeline_model(t@),
                batched_deletions@,
            );
            assert(self.entities@.map_values(|e: ExecutionEnvironment| e.model()) =~= dispatched_pool(
                m,
            ));
            assert(self.actions@.map_values(|t: Vec<TimedCallback>| timeline_model(t@))
                =~= dispatched_timelines(m, before_a));
        }
        let ghost unswept_e = self.entities@;
        let ghost unswept_a = self.actions@;
        swap_remove_all(&mut self.entities, &batched_deletions);
        swap_remove_all(&mut self.actions, &batched_deletions);
        let ghost swept_e = self.entities@;
        let ghost swept_a = self.actions@;
        let ghost spawned = environments_model(pooled_new_entities@);
        let ghost pending_a = pooled_new_actions@;
        let ghost pending_e = pooled_new_entities@;
        self.entities.append(&mut pooled_new_entities);
        self.actions.append(&mut pooled_new_actions);
        self.elapsed += 1;
        proof {
            let gone = deletions(m, before_a, m.len());
            assert(environments_model(swept_e) =~= swap_removed_all(unswept_e, gone).map_values(
                |e: ExecutionEnvironment| e.model(),
            ));
            assert(actions_model(swept_a) =~= swap_removed_all(unswept_a, gone).map_values(
                |t: Vec<TimedCallback>| timeline_model(t@),
            ));
            assert(environments_model(self.entities@) =~= swap_removed_all(dispatched_pool(m), gone)
                + spawned);
            assert forall|j: int| 0 <= j < pending_a.len() implies timeline_model(
                (#[trigger] pending_a[j])@,
            ) == Seq::<TimedModel>::empty() by {
                assert(born_of(
                    self.unit,
                    spawn_total(m, before_a, m.len())[j],
                    self.paths,
                    self.bullets,
                    pending_e[j].model(),
                ));
                assert(timeline_model(pending_a[j]@) =~= Seq::<TimedModel>::empty());
            }
            assert(actions_model(self.actions@) =~= swap_removed_all(
                dispatched_timelines(m, before_a),
                gone,
            ) + Seq::new(spawned.len(), |j: int| Seq::<TimedModel>::empty()));
            utils::lemma_swap_removed_all_len(unswept_e, gone);
            utils::lemma_swap_removed_all_len(unswept_a, gone);
            assert(m =~= moved_pool(self.unit, self.fps, before_e));
            assert(spawned =~= born_pool(
                self.unit,
                spawn_total(m, before_a, m.len()),
                self.paths,
                self.bullets,
            )) by {
                assert forall|j: int| 0 <= j < spawned.len() implies spawned[j] == born(
                    self.unit,
                    spawn_total(m, before_a, m.len())[j],
                    self.paths,
                    self.bullets,
                ) by {
                    assert(born_of(
                        self.unit,
                        spawn_total(m, before_a, m.len())[j],
                        self.paths,
                        self.bullets,
                        pending_e[j].model(),
                    ));
                }
            }

        }
    }

    fn angle_towards_player() -> (r: ExpressionType)
        ensures
            r.model() == towards_player_model(),
    {
        ExpressionType::Float(0)
    }

    fn entity_pos_as_expr(entity_position: Vector2) -> (r: ExpressionType)
        ensures
            r.model() == ExprModel::Vector(
                seq![ExprModel::Float(entity_position.x), ExprModel::Float(entity_position.y)],
            ),
    {
        let mut v: Vec<ExpressionType> = Vec::new();
        v.push(ExpressionType::Float(entity_position.x));
        v.push(ExpressionType::Float(entity_position.y));
        assert(v@[0].model() == ExprModel::Float(entity_position.x));
        assert(v@[1].model() == ExprModel::Float(entity_position.y));
        let r = ExpressionType::Vector(v);
        assert(r.model()->Vector_0 =~= seq![
            ExprModel::Float(entity_position.x),
            ExprModel::Float(entity_position.y),
        ]);
        r
    }

    /// The globals of an entity as it is spawned at `entity_position`: the
    /// angle towards the player and the position itself.
    pub fn create_globals(entity_position: Vector2) -> (r: Values)
        ensures
            r.model() == globals_model(entity_position),
    {
        let mut globals = Values::new();
        globals.insert(String::from_str("towards_player"), Self::angle_towards_player());
        globals.insert(
            String::from_str("entity_position"),
            Self::entity_pos_as_expr(entity_position),
        );
        assert(globals.model() =~= globals_model(entity_position));
        globals
    }
}

} // verus!
