use patternscript::interpreter::callback::{
    CallbackResult, EntityCallback, SpawnClosure, TimedCallback,
};
use patternscript::interpreter::dispatch::dispatch;
use patternscript::interpreter::entity::{
    channel_of, eval_field, lifetime_of, point_of, rotation_of, speed_of, Behavior, Color, Entity,
    ExecutionEnvironment, Hitbox, HitboxType, Size, Vector2, DEFAULT_LIFETIME, DEFAULT_SPEED,
};
use patternscript::interpreter::error::{CompileError, RuntimeError};
use patternscript::interpreter::float::{FloatBinary, FloatCompare, FloatFunction, FloatUnit};
use patternscript::interpreter::primitive::Primitive;
use patternscript::interpreter::registry::Registry;
use patternscript::interpreter::utils::swap_remove_all;
use patternscript::interpreter::{BulletMap, IError, Interpreter, PathMap};
use patternscript::parser::parser::{
    ArithmeticExpression, Block, BulletData, ExpressionType, HeadData, Node, PathData,
    PatternData, SpawnData, UnaryOperator, Values, WaitData,
};
use patternscript::parser::types::Op;

struct Ieee;

impl FloatUnit for Ieee {
    fn int_value(&self, i: i64) -> u64 {
        self.from_int(i)
    }

    fn binary_value(&self, op: FloatBinary, a: u64, b: u64) -> u64 {
        self.binary(op, a, b)
    }

    fn compare_value(&self, op: FloatCompare, a: u64, b: u64) -> bool {
        self.compare(op, a, b)
    }

    fn function_value(&self, f: FloatFunction, a: u64) -> u64 {
        self.function(f, a)
    }

    fn u32_value(&self, a: u64) -> u32 {
        self.to_u32(a)
    }

    fn degrees_value(&self, a: u64) -> u64 {
        self.normalize_degrees(a)
    }

    fn int_degrees_value(&self, i: i64) -> u64 {
        self.normalize_degrees_int(i)
    }

    fn cos_value(&self, angle: u64) -> u64 {
        self.angle_cos(angle)
    }

    fn sin_value(&self, angle: u64) -> u64 {
        self.angle_sin(angle)
    }

    fn from_int(&self, i: i64) -> u64 {
        (i as f64).to_bits()
    }

    fn binary(&self, op: FloatBinary, a: u64, b: u64) -> u64 {
        let (a, b) = (f64::from_bits(a), f64::from_bits(b));
        let r = match op {
            FloatBinary::Add => a + b,
            FloatBinary::Sub => a - b,
            FloatBinary::Mul => a * b,
            FloatBinary::Div => a / b,
            FloatBinary::Pow => a.powf(b),
        };
        r.to_bits()
    }

    fn compare(&self, op: FloatCompare, a: u64, b: u64) -> bool {
        let (a, b) = (f64::from_bits(a), f64::from_bits(b));
        match op {
            FloatCompare::GT => a > b,
            FloatCompare::GTE => a >= b,
            FloatCompare::LT => a < b,
            FloatCompare::LTE => a <= b,
        }
    }

    fn function(&self, f: FloatFunction, a: u64) -> u64 {
        let a = f64::from_bits(a);
        let r = match f {
            FloatFunction::Negate => -1.0 * a,
            FloatFunction::Sqrt => a.sqrt(),
            FloatFunction::Sin => a.to_radians().sin(),
            FloatFunction::Cos => a.to_radians().cos(),
            FloatFunction::Tan => a.to_radians().tan(),
        };
        r.to_bits()
    }

    fn to_u32(&self, a: u64) -> u32 {
        f64::from_bits(a) as u32
    }

    fn normalize_degrees(&self, a: u64) -> u64 {
        ((f64::from_bits(a) as f32).rem_euclid(360.0) as f64).to_bits()
    }

    fn normalize_degrees_int(&self, i: i64) -> u64 {
        ((i as f32).rem_euclid(360.0) as f64).to_bits()
    }

    fn parse(&self, text: &str) -> u64 {
        text.parse::<f64>().unwrap_or(f64::NAN).to_bits()
    }

    fn angle_cos(&self, angle: u64) -> u64 {
        ((f64::from_bits(angle) as f32).to_radians().cos() as f64).to_bits()
    }

    fn angle_sin(&self, angle: u64) -> u64 {
        ((f64::from_bits(angle) as f32).to_radians().sin() as f64).to_bits()
    }
}

fn decimal(x: f64) -> ExpressionType {
    ExpressionType::Float(x.to_bits())
}

fn whole(i: i64) -> ExpressionType {
    ExpressionType::Int(i)
}

fn var(name: &str) -> ExpressionType {
    ExpressionType::Variable(name.to_string())
}

fn binary(op: Op, l: ExpressionType, r: ExpressionType) -> ExpressionType {
    ExpressionType::Expr(ArithmeticExpression::Binary(op, Box::new(l), Box::new(r)))
}

fn negate(e: ExpressionType) -> ExpressionType {
    ExpressionType::Expr(ArithmeticExpression::Unary(UnaryOperator::Negate, Box::new(e)))
}

fn call(name: &str, arg: ExpressionType) -> ExpressionType {
    ExpressionType::Expr(ArithmeticExpression::Unary(
        UnaryOperator::FunctionCall(name.to_string()),
        Box::new(arg),
    ))
}

fn scope(bindings: Vec<(&str, ExpressionType)>) -> Values {
    let mut v = Values::new();
    for (name, e) in bindings {
        v.insert(name.to_string(), e);
    }
    v
}

fn point(x: f64, y: f64) -> Vector2 {
    Vector2 { x: x.to_bits(), y: y.to_bits() }
}

fn coordinates(v: Vector2) -> (f64, f64) {
    (f64::from_bits(v.x), f64::from_bits(v.y))
}

fn spawn(fields: Vec<(&str, ExpressionType)>) -> Node {
    Node::Spawn(SpawnData { definitions: scope(fields) })
}

fn pattern(definitions: Vec<(&str, ExpressionType)>, actions: Vec<Node>) -> Node {
    let mut defs = scope(definitions);
    defs.insert(
        "actions".to_string(),
        ExpressionType::Block(Block { definitions: Values::new(), statements: actions }),
    );
    Node::Pattern(PatternData { block: Block { definitions: defs, statements: vec![] } })
}

fn world(definitions: Vec<(&str, Node)>) -> Interpreter<Ieee> {
    let definitions = definitions.into_iter().map(|(k, v)| (k.to_string(), v)).collect();
    Interpreter::new(HeadData { definitions }, Ieee)
}

fn living(lifetime: u32) -> Entity {
    let mut e = Entity::new();
    e.lifetime = lifetime;
    e
}

fn build(fields: Vec<(&str, ExpressionType)>, paths: &PathMap, bullets: &BulletMap) -> Entity {
    Entity::from_values(&scope(fields), paths, bullets, Values::new(), Some(Values::new()), &Ieee)
}

fn lifetimes(w: &Interpreter<Ieee>) -> Vec<u32> {
    w.entities.iter().map(|e| e.entity.lifetime).collect()
}

fn spawn_closure(lifetime: i64) -> EntityCallback {
    EntityCallback::Spawn(SpawnClosure {
        definitions: scope(vec![("lifetime", whole(lifetime))]),
        values: Values::new(),
        globals: Values::new(),
    })
}

#[test]
fn the_default_entity() {
    let e = Entity::new();
    assert_eq!(coordinates(e.position), (0.0, 0.0));
    assert_eq!(coordinates(e.velocity), (0.0, 0.0));
    assert_eq!(f64::from_bits(e.rotation), 0.0);
    assert_eq!(e.speed, None);
    assert_eq!(e.lifetime, 600);
    assert_eq!(e.color, Color { x: 255, y: 0, z: 0 });
    assert_eq!(
        e.hitbox,
        Hitbox {
            size: Size { x: 3, y: 3 },
            offset: point(0.0, 0.0),
            hitbox_type: HitboxType::Rectangle
        }
    );
    assert_eq!(e.behavior, Behavior::Simple);
    assert_eq!(e.position_fn, None);
    assert_eq!(e.velocity_fn, None);
    assert_eq!(e.instance_vars, None);
    assert_eq!(e.clone(), e);
    assert_eq!(f64::from_bits(DEFAULT_SPEED), 10.0);
    assert_eq!(DEFAULT_LIFETIME, 600);
}

#[test]
fn an_environment_starts_at_frame_zero() {
    let env = ExecutionEnvironment::new(&living(42));
    assert_eq!(env.elapsed, 0);
    assert_eq!(env.duration, 42);
    assert_eq!(env.current_wait, 0);
    assert_eq!(env.entity, living(42));
    assert_eq!(env.remaining(), 42);
    let mut env = env;
    env.elapsed = 40;
    assert_eq!(env.remaining(), 2);
    env.elapsed = 50;
    assert_eq!(env.remaining(), 0);
}

#[test]
fn the_fields_of_a_spawn_are_evaluated() {
    let e = build(
        vec![
            ("lifetime", whole(800)),
            ("position", ExpressionType::Vector(vec![whole(3), whole(4)])),
            ("velocity", ExpressionType::Vector(vec![decimal(1.5), decimal(-2.5)])),
            ("rotation", whole(450)),
            ("speed", whole(200)),
        ],
        &Registry::new(),
        &Registry::new(),
    );
    assert_eq!(e.lifetime, 800);
    assert_eq!(coordinates(e.position), (3.0, 4.0));
    assert_eq!(coordinates(e.velocity), (1.5, -2.5));
    assert_eq!(f64::from_bits(e.rotation), 90.0);
    assert_eq!(e.speed.map(f64::from_bits), Some(200.0));
    assert_eq!(e.behavior, Behavior::Simple);
    let e = build(
        vec![("lifetime", decimal(12.9)), ("rotation", decimal(-90.0)), ("speed", decimal(2.5))],
        &Registry::new(),
        &Registry::new(),
    );
    assert_eq!(e.lifetime, 12);
    assert_eq!(f64::from_bits(e.rotation), 270.0);
    assert_eq!(e.speed.map(f64::from_bits), Some(2.5));
}

#[test]
fn a_field_that_fails_gives_its_default() {
    let e = build(
        vec![
            ("lifetime", ExpressionType::String("long".to_string())),
            ("position", whole(3)),
            ("velocity", ExpressionType::Vector(vec![whole(1)])),
            ("rotation", var("missing")),
            ("speed", ExpressionType::Vector(vec![whole(1), whole(2)])),
        ],
        &Registry::new(),
        &Registry::new(),
    );
    assert_eq!(e.lifetime, 600);
    assert_eq!(coordinates(e.position), (0.0, 0.0));
    assert_eq!(coordinates(e.velocity), (0.0, 0.0));
    assert_eq!(f64::from_bits(e.rotation), 0.0);
    assert_eq!(e.speed.map(f64::from_bits), Some(10.0));
    let e = build(vec![], &Registry::new(), &Registry::new());
    assert_eq!(e.lifetime, 600);
    assert_eq!(e.speed, None);
    assert_eq!(e.color, Color { x: 255, y: 0, z: 0 });
}

#[test]
fn an_integer_lifetime_counts_by_its_low_bits() {
    let e = build(vec![("lifetime", whole(-1))], &Registry::new(), &Registry::new());
    assert_eq!(e.lifetime, u32::MAX);
    let e = build(vec![("lifetime", whole((1 << 32) + 7))], &Registry::new(), &Registry::new());
    assert_eq!(e.lifetime, 7);
}

#[test]
fn the_fields_see_the_captured_scope_and_the_globals() {
    let fields = scope(vec![
        ("lifetime", binary(Op::Mul, var("i"), whole(10))),
        ("position", var("entity_position")),
    ]);
    let captured = scope(vec![("i", whole(4))]);
    let globals = Interpreter::<Ieee>::create_globals(point(7.0, 8.0));
    let e = Entity::from_values(
        &fields,
        &Registry::new(),
        &Registry::new(),
        globals.clone(),
        Some(captured),
        &Ieee,
    );
    assert_eq!(e.lifetime, 40);
    assert_eq!(coordinates(e.position), (7.0, 8.0));
    let mut expected = globals;
    expected.extend(scope(vec![("i", whole(4))]));
    assert_eq!(e.instance_vars, Some(expected));
    // without a captured scope the globals are seen all the same
    let e = Entity::from_values(
        &fields,
        &Registry::new(),
        &Registry::new(),
        Interpreter::<Ieee>::create_globals(point(7.0, 8.0)),
        None,
        &Ieee,
    );
    assert_eq!(e.lifetime, 600);
    assert_eq!(coordinates(e.position), (7.0, 8.0));
    assert_eq!(e.instance_vars, None);
}

#[test]
fn the_inner_layer_of_a_scope_wins() {
    let mut bullets: BulletMap = Registry::new();
    bullets.insert(
        "shot".to_string(),
        BulletData { definitions: scope(vec![("n", whole(3)), ("speed", var("n"))]) },
    );
    // a captured binding wins over a global
    let e = Entity::from_values(
        &scope(vec![("lifetime", var("n"))]),
        &Registry::new(),
        &bullets,
        scope(vec![("n", whole(1))]),
        Some(scope(vec![("n", whole(2))])),
        &Ieee,
    );
    assert_eq!(e.lifetime, 2);
    assert_eq!(e.instance_vars, Some(scope(vec![("n", whole(1)), ("n", whole(2))])));
    // a field of the prefab wins over a captured binding
    let e = Entity::from_values(
        &scope(vec![("type", var("shot")), ("lifetime", var("n"))]),
        &Registry::new(),
        &bullets,
        scope(vec![("n", whole(1))]),
        Some(scope(vec![("n", whole(2))])),
        &Ieee,
    );
    assert_eq!(e.lifetime, 3);
    assert_eq!(e.speed.map(f64::from_bits), Some(3.0));
    // a field of the spawn wins over all
    let e = Entity::from_values(
        &scope(vec![("type", var("shot")), ("lifetime", var("n")), ("n", whole(4))]),
        &Registry::new(),
        &bullets,
        scope(vec![("n", whole(1))]),
        Some(scope(vec![("n", whole(2)), ("type", var("other"))])),
        &Ieee,
    );
    assert_eq!(e.lifetime, 4);
    assert_eq!(e.speed.map(f64::from_bits), Some(4.0));
}

#[test]
fn the_colour_of_a_spawn_wins_over_that_of_its_prefab() {
    let mut bullets: BulletMap = Registry::new();
    bullets.insert(
        "shot".to_string(),
        BulletData {
            definitions: scope(vec![(
                "color",
                ExpressionType::Vector(vec![whole(1), whole(2), whole(3)]),
            )]),
        },
    );
    let own = ExpressionType::Vector(vec![whole(9), var("g"), decimal(1.0)]);
    let e = build(
        vec![("type", var("shot")), ("color", own), ("g", whole(8))],
        &Registry::new(),
        &bullets,
    );
    assert_eq!(e.color, Color { x: 9, y: 8, z: 255 });
    let e = build(vec![("type", var("shot"))], &Registry::new(), &bullets);
    assert_eq!(e.color, Color { x: 1, y: 2, z: 3 });
    let e = build(
        vec![("color", ExpressionType::Vector(vec![whole(0), whole(0), whole(7)]))],
        &Registry::new(),
        &bullets,
    );
    assert_eq!(e.color, Color { x: 0, y: 0, z: 7 });
}

#[test]
fn the_fields_of_a_spawn_win_over_those_of_its_prefab() {
    let mut bullets: BulletMap = Registry::new();
    bullets.insert(
        "mid_sized".to_string(),
        BulletData {
            definitions: scope(vec![
                ("lifetime", whole(400)),
                ("speed", whole(5)),
                ("color", ExpressionType::Vector(vec![whole(255), whole(255), whole(0)])),
            ]),
        },
    );
    let e = build(
        vec![("type", var("mid_sized")), ("lifetime", whole(800))],
        &Registry::new(),
        &bullets,
    );
    assert_eq!(e.lifetime, 800);
    assert_eq!(e.speed.map(f64::from_bits), Some(5.0));
    assert_eq!(e.color, Color { x: 255, y: 255, z: 0 });
    let e = build(vec![("type", var("mid_sized"))], &Registry::new(), &bullets);
    assert_eq!(e.lifetime, 400);
    let e = build(vec![("type", var("unknown")), ("lifetime", whole(3))], &Registry::new(), &bullets);
    assert_eq!(e.lifetime, 3);
    assert_eq!(e.speed, None);
    assert_eq!(e.color, Color { x: 255, y: 0, z: 0 });
}

#[test]
fn colours_are_read_part_by_part() {
    let s = scope(vec![("g", whole(128))]);
    let c = ExpressionType::Vector(vec![whole(1), var("g"), decimal(0.5)]);
    assert_eq!(Entity::extract_color(&c, &s, &Ieee), Color { x: 1, y: 128, z: 127 });
    let c = ExpressionType::Vector(vec![whole(256 + 5), var("missing"), decimal(2.0)]);
    assert_eq!(Entity::extract_color(&c, &s, &Ieee), Color { x: 5, y: 0, z: 255 });
    let c = ExpressionType::Vector(vec![whole(-1), ExpressionType::String("a".to_string()), decimal(-1.0)]);
    assert_eq!(Entity::extract_color(&c, &s, &Ieee), Color { x: 255, y: 0, z: 0 });
    let c = ExpressionType::Vector(vec![whole(1), whole(2)]);
    assert_eq!(Entity::extract_color(&c, &s, &Ieee), Color { x: 255, y: 0, z: 0 });
    assert_eq!(Entity::extract_color(&whole(7), &s, &Ieee), Color { x: 255, y: 0, z: 0 });
    assert_eq!(channel_of(&Ok(Primitive::I64(300)), &Ieee), 44);
    assert_eq!(channel_of(&Ok(Primitive::F64(1.0f64.to_bits())), &Ieee), 255);
    assert_eq!(channel_of(&Err(RuntimeError::Generic), &Ieee), 0);
}

#[test]
fn field_values_are_turned_into_what_the_entity_holds() {
    assert_eq!(lifetime_of(&None, &Ieee), 600);
    assert_eq!(lifetime_of(&Some(Ok(Primitive::I64(9))), &Ieee), 9);
    assert_eq!(lifetime_of(&Some(Ok(Primitive::F64(9.99f64.to_bits()))), &Ieee), 9);
    assert_eq!(lifetime_of(&Some(Ok(Primitive::Bool(true))), &Ieee), 600);
    assert_eq!(lifetime_of(&Some(Err(RuntimeError::Generic)), &Ieee), 600);
    assert_eq!(
        point_of(&Some(Ok(Primitive::FloatVec(vec![1.5f64.to_bits(), 2.5f64.to_bits()]))), &Ieee),
        point(1.5, 2.5)
    );
    assert_eq!(point_of(&Some(Ok(Primitive::IntVec(vec![1, 2, 3]))), &Ieee), point(1.0, 2.0));
    assert_eq!(point_of(&Some(Ok(Primitive::IntVec(vec![1]))), &Ieee), point(0.0, 0.0));
    assert_eq!(point_of(&None, &Ieee), point(0.0, 0.0));
    assert_eq!(f64::from_bits(rotation_of(&Some(Ok(Primitive::I64(-30))), &Ieee)), 330.0);
    assert_eq!(rotation_of(&Some(Ok(Primitive::Bool(true))), &Ieee), 0);
    assert_eq!(speed_of(&None, &Ieee), None);
    assert_eq!(speed_of(&Some(Err(RuntimeError::Generic)), &Ieee), Some(DEFAULT_SPEED));
    assert_eq!(speed_of(&Some(Ok(Primitive::F64(7))), &Ieee), Some(7));
    let s = scope(vec![("a", whole(1))]);
    assert_eq!(eval_field(&s, "a", &Ieee), Some(Ok(Primitive::I64(1))));
    assert_eq!(eval_field(&s, "b", &Ieee), None);
}

#[test]
fn arguments_are_bound_by_their_place() {
    let formals = ExpressionType::Vector(vec![var("t"), var("amp"), whole(1), var("rest")]);
    let actuals = ExpressionType::Vector(vec![var("t"), whole(5), whole(6)]);
    assert_eq!(
        Entity::align_function_args(&formals, &actuals),
        scope(vec![("t", var("t")), ("amp", whole(5))])
    );
    assert_eq!(Entity::align_function_args(&whole(1), &actuals), Values::new());
    assert_eq!(Entity::align_function_args(&formals, &whole(1)), Values::new());
}

#[test]
fn a_path_call_binds_the_path() {
    let mut paths: PathMap = Registry::new();
    paths.insert(
        "line".to_string(),
        PathData {
            arguments: ExpressionType::Vector(vec![var("t"), var("slope")]),
            definitions: scope(vec![
                ("x", var("t")),
                ("y", binary(Op::Mul, var("t"), var("slope"))),
            ]),
        },
    );
    let args = ExpressionType::Vector(vec![var("t"), whole(3)]);
    let e = build(
        vec![("position_fn", call("line", args.clone())), ("velocity_fn", call("curve", args))],
        &paths,
        &Registry::new(),
    );
    assert_eq!(
        e.position_fn,
        Some(scope(vec![
            ("t", var("t")),
            ("slope", whole(3)),
            ("x", var("t")),
            ("y", binary(Op::Mul, var("t"), var("slope"))),
        ]))
    );
    assert_eq!(e.velocity_fn, None);
}

#[test]
fn the_world_registers_the_definitions_of_the_head() {
    let w = world(vec![
        ("p", pattern(vec![], vec![])),
        ("b", Node::Bullet(BulletData { definitions: scope(vec![("lifetime", whole(1))]) })),
        ("q", Node::Path(PathData { arguments: whole(0), definitions: Values::new() })),
        ("b", Node::Bullet(BulletData { definitions: scope(vec![("lifetime", whole(2))]) })),
        ("s", spawn(vec![])),
    ]);
    assert_eq!(w.elapsed, 0);
    assert_eq!(w.fps, 120);
    assert_eq!(w.entities.len(), 0);
    assert_eq!(w.actions.len(), 0);
    assert_eq!(w.patterns.len(), 1);
    assert_eq!(w.paths.len(), 1);
    assert_eq!(w.bullets.len(), 2);
    assert_eq!(w.prefabs.len(), 0);
    assert!(w.patterns.get(&"p".to_string()).is_some());
    assert!(w.patterns.get(&"b".to_string()).is_none());
    assert_eq!(
        w.bullets.get(&"b".to_string()),
        Some(&BulletData { definitions: scope(vec![("lifetime", whole(2))]) })
    );
    assert!(w.paths.get(&"s".to_string()).is_none());
}

#[test]
fn a_world_is_made_of_a_head_node_only() {
    let w = Interpreter::from_parse_result(Node::Head(HeadData { definitions: vec![] }), Ieee);
    assert!(matches!(w, Ok(_)));
    let w = Interpreter::from_parse_result(spawn(vec![]), Ieee);
    assert!(matches!(w, Err(IError::FromParse)));
}

#[test]
fn the_globals_of_an_entity() {
    let g = Interpreter::<Ieee>::create_globals(point(300.0, 20.0));
    assert_eq!(
        g,
        scope(vec![
            ("towards_player", decimal(0.0)),
            ("entity_position", ExpressionType::Vector(vec![decimal(300.0), decimal(20.0)])),
        ])
    );
}

#[test]
fn spawning_adds_an_entity_with_its_timeline() {
    let mut w = world(vec![(
        "burst",
        pattern(vec![], vec![spawn(vec![]), Node::Wait(WaitData::Frames(whole(3))), spawn(vec![])]),
    )]);
    let mut e = living(10);
    e.behavior = Behavior::Pattern("burst".to_string());
    e.position = point(300.0, 20.0);
    assert_eq!(w.spawn_direct(&e), Ok(()));
    assert_eq!(w.entities.len(), 1);
    assert_eq!(w.actions.len(), 1);
    assert_eq!(w.entities[0], ExecutionEnvironment::new(&e));
    assert_eq!(w.actions[0].iter().map(|t| t.frame).collect::<Vec<_>>(), vec![0, 3]);
    match &w.actions[0][0].func {
        EntityCallback::Spawn(c) => {
            assert_eq!(c.globals, Interpreter::<Ieee>::create_globals(point(300.0, 20.0)))
        }
        other => panic!("no spawn: {:?}", other),
    }
    // no behaviour, or an unknown one, gives an empty timeline
    assert_eq!(w.spawn_direct(&living(3)), Ok(()));
    let mut e = living(4);
    e.behavior = Behavior::Pattern("unknown".to_string());
    assert_eq!(w.spawn_direct(&e), Ok(()));
    assert_eq!(w.actions[1].len(), 0);
    assert_eq!(w.actions[2].len(), 0);
    assert_eq!(lifetimes(&w), vec![10, 3, 4]);
}

#[test]
fn a_behaviour_that_does_not_compile_spawns_nothing() {
    let mut w = world(vec![(
        "bad",
        pattern(vec![], vec![Node::Wait(WaitData::Frames(decimal(1.0)))]),
    )]);
    let mut e = living(10);
    e.behavior = Behavior::Pattern("bad".to_string());
    assert_eq!(w.spawn_direct(&e), Err(IError::Compile(CompileError::MalformedDuration)));
    assert_eq!(w.entities.len(), 0);
    assert_eq!(w.actions.len(), 0);
}

#[test]
fn spawning_by_name_takes_a_prefab() {
    let mut w = world(vec![]);
    w.prefabs.insert("boss".to_string(), living(77));
    assert_eq!(w.spawn_named("boss".to_string()), Ok(()));
    assert_eq!(w.spawn_named("nobody".to_string()), Err(IError::NoSuchPrefab));
    assert_eq!(lifetimes(&w), vec![77]);
    assert_eq!(w.actions.len(), 1);
    assert_eq!(w.actions[0].len(), 0);
}

#[test]
fn an_empty_pattern_steps_without_spawning() {
    let mut w = world(vec![("idle", pattern(vec![], vec![]))]);
    let mut e = living(100);
    e.behavior = Behavior::Pattern("idle".to_string());
    w.spawn_direct(&e).unwrap();
    w.step();
    assert_eq!(w.entities.len(), 1);
    assert_eq!(w.actions.len(), 1);
    assert_eq!(w.entities[0].elapsed, 1);
    assert_eq!(w.elapsed, 1);
}

#[test]
fn an_entity_lives_as_long_as_its_lifetime() {
    let mut w = world(vec![]);
    w.spawn_direct(&living(5)).unwrap();
    for tick in 0..5 {
        assert_eq!(w.entities[0].elapsed, tick);
        w.step();
        assert_eq!(w.entities.len(), 1, "present after tick {}", tick);
    }
    assert_eq!(w.entities[0].elapsed, 5);
    w.step();
    assert_eq!(w.entities.len(), 0);
    assert_eq!(w.actions.len(), 0);
    assert_eq!(w.elapsed, 6);
}

#[test]
fn an_entity_without_lifetime_leaves_at_once() {
    let mut w = world(vec![]);
    w.spawn_direct(&living(0)).unwrap();
    w.actions[0].push(TimedCallback::new(spawn_closure(9), 0));
    w.step();
    // it fires nothing after its life
    assert_eq!(w.entities.len(), 0);
    assert_eq!(w.actions.len(), 0);
}

#[test]
fn due_entries_fire_once_and_leave_the_timeline() {
    let mut w = world(vec![]);
    w.spawn_direct(&living(100)).unwrap();
    w.actions[0].push(TimedCallback::new(spawn_closure(7), 1));
    w.actions[0].push(TimedCallback::new(spawn_closure(8), 3));
    w.step();
    assert_eq!(lifetimes(&w), vec![100]);
    assert_eq!(w.actions[0].len(), 2);
    w.step();
    assert_eq!(lifetimes(&w), vec![100, 7]);
    assert_eq!(w.actions[0].iter().map(|t| t.frame).collect::<Vec<_>>(), vec![3]);
    assert_eq!(w.actions[1].len(), 0);
    assert_eq!(w.entities[1].elapsed, 0);
    assert_eq!(w.entities[1].duration, 7);
    w.step();
    assert_eq!(lifetimes(&w), vec![100, 7]);
    assert_eq!(w.entities[1].elapsed, 1);
    w.step();
    assert_eq!(lifetimes(&w), vec![100, 7, 8]);
    assert_eq!(w.actions[0].len(), 0);
    for _ in 0..10 {
        w.step();
    }
    assert_eq!(lifetimes(&w), vec![100]);
    assert_eq!(w.entities[0].elapsed, 14);
}

#[test]
fn due_entries_fire_in_the_order_of_the_timeline() {
    let mut w = world(vec![]);
    w.spawn_direct(&living(100)).unwrap();
    w.entities[0].elapsed = 5;
    w.actions[0].push(TimedCallback::new(spawn_closure(50), 5));
    w.actions[0].push(TimedCallback::new(spawn_closure(10), 9));
    w.actions[0].push(TimedCallback::new(spawn_closure(30), 0));
    w.actions[0].push(TimedCallback::new(spawn_closure(20), 2));
    w.step();
    assert_eq!(lifetimes(&w), vec![100, 50, 30, 20]);
    assert_eq!(w.actions[0].iter().map(|t| t.frame).collect::<Vec<_>>(), vec![9]);
}

#[test]
fn a_deletion_removes_the_entity_that_asks_for_it() {
    let mut w = world(vec![]);
    w.spawn_direct(&living(100)).unwrap();
    w.spawn_direct(&living(200)).unwrap();
    w.actions[0].push(TimedCallback::new(EntityCallback::Delete, 2));
    w.actions[0].push(TimedCallback::new(EntityCallback::Delete, 2));
    w.actions[1].push(TimedCallback::new(EntityCallback::Mutate, 0));
    w.step();
    w.step();
    assert_eq!(lifetimes(&w), vec![100, 200]);
    assert_eq!(w.actions[1].len(), 0);
    w.step();
    assert_eq!(lifetimes(&w), vec![200]);
    assert_eq!(w.entities[0].elapsed, 3);
}

#[test]
fn a_removal_keeps_every_entity_with_its_timeline() {
    let mut w = world(vec![]);
    for lifetime in [0u32, 11, 12, 0, 14, 15] {
        w.spawn_direct(&living(lifetime)).unwrap();
    }
    for (i, lifetime) in [0u32, 11, 12, 0, 14, 15].into_iter().enumerate() {
        // the timeline of each entity carries the lifetime of the entity
        w.actions[i].push(TimedCallback::new(EntityCallback::Mutate, 1000 + lifetime));
    }
    w.step();
    assert_eq!(w.entities.len(), 4);
    assert_eq!(w.actions.len(), 4);
    assert_eq!(lifetimes(&w), vec![14, 11, 12, 15]);
    for i in 0..w.entities.len() {
        assert_eq!(w.actions[i].len(), 1);
        assert_eq!(w.actions[i][0].frame, 1000 + w.entities[i].entity.lifetime);
        assert_eq!(w.entities[i].elapsed, 1);
    }
}

#[test]
fn what_is_spawned_comes_behind_what_stays() {
    let mut w = world(vec![]);
    w.spawn_direct(&living(0)).unwrap();
    w.spawn_direct(&living(100)).unwrap();
    w.spawn_direct(&living(200)).unwrap();
    w.actions[1].push(TimedCallback::new(spawn_closure(1), 0));
    w.actions[2].push(TimedCallback::new(spawn_closure(2), 0));
    w.step();
    assert_eq!(lifetimes(&w), vec![200, 100, 1, 2]);
    assert_eq!(w.actions.iter().map(|a| a.len()).collect::<Vec<_>>(), vec![0, 0, 0, 0]);
    assert_eq!(
        w.entities.iter().map(|e| e.elapsed).collect::<Vec<_>>(),
        vec![1, 1, 0, 0]
    );
}

#[test]
fn a_spawned_entity_is_built_from_the_captured_fields() {
    let mut w = world(vec![(
        "shot",
        Node::Bullet(BulletData { definitions: scope(vec![("lifetime", whole(30))]) }),
    )]);
    let mut parent = living(100);
    parent.position = point(5.0, 6.0);
    w.spawn_direct(&parent).unwrap();
    let closure = EntityCallback::Spawn(SpawnClosure {
        definitions: scope(vec![
            ("type", var("shot")),
            ("position", ExpressionType::Vector(vec![var("i"), whole(0)])),
            ("velocity", var("entity_position")),
        ]),
        values: scope(vec![("i", whole(2))]),
        globals: Interpreter::<Ieee>::create_globals(point(5.0, 6.0)),
    });
    w.actions[0].push(TimedCallback::new(closure, 0));
    w.fps = 1;
    w.step();
    assert_eq!(w.entities.len(), 2);
    let child = &w.entities[1];
    assert_eq!(child.duration, 30);
    assert_eq!(coordinates(child.entity.position), (2.0, 0.0));
    assert_eq!(coordinates(child.entity.velocity), (5.0, 6.0));
    w.step();
    assert_eq!(coordinates(w.entities[1].entity.position), (7.0, 6.0));
}

#[test]
fn firing_an_action() {
    let mut env = ExecutionEnvironment::new(&living(3));
    let before = ExecutionEnvironment::new(&living(3));
    let (p, b) = (Registry::new(), Registry::new());
    let (q, e) = (Registry::new(), Registry::new());
    assert_eq!(EntityCallback::Delete.fire(&mut env, &p, &q, &e, &b, &Ieee), CallbackResult::Delete);
    assert_eq!(EntityCallback::Mutate.fire(&mut env, &p, &q, &e, &b, &Ieee), CallbackResult::Mutate);
    match spawn_closure(9).fire(&mut env, &p, &q, &e, &b, &Ieee) {
        CallbackResult::AddEntities(v) => {
            assert_eq!(v.len(), 1);
            assert_eq!(v[0].lifetime, 9);
            assert_eq!(v[0].instance_vars, Some(Values::new()));
        }
        other => panic!("no entity: {:?}", other),
    }
    assert_eq!(env, before);
}

#[test]
fn dispatching_one_entity() {
    let mut env = ExecutionEnvironment::new(&living(3));
    let mut timeline = vec![
        TimedCallback::new(spawn_closure(1), 0),
        TimedCallback::new(EntityCallback::Delete, 5),
        TimedCallback::new(spawn_closure(2), 0),
    ];
    let (p, b) = (Registry::new(), Registry::new());
    let (q, e) = (Registry::new(), Registry::new());
    let mut pending_e = vec![];
    let mut pending_a = vec![];
    let deleted = dispatch(&mut env, &mut timeline, &p, &q, &e, &b, 120, &Ieee, &mut pending_e, &mut pending_a);
    assert!(!deleted);
    assert_eq!(env.elapsed, 1);
    assert_eq!(timeline, vec![TimedCallback::new(EntityCallback::Delete, 5)]);
    assert_eq!(pending_e.iter().map(|x| x.duration).collect::<Vec<_>>(), vec![1, 2]);
    assert_eq!(pending_a, vec![vec![], vec![]]);
    env.elapsed = 5;
    env.duration = 5;
    let deleted = dispatch(&mut env, &mut timeline, &p, &q, &e, &b, 120, &Ieee, &mut pending_e, &mut pending_a);
    assert!(deleted);
    assert_eq!(env.elapsed, 5);
    assert_eq!(timeline.len(), 1);
    env.duration = 6;
    let deleted = dispatch(&mut env, &mut timeline, &p, &q, &e, &b, 120, &Ieee, &mut pending_e, &mut pending_a);
    assert!(deleted);
    assert_eq!(env.elapsed, 6);
    assert_eq!(timeline.len(), 0);
    assert_eq!(pending_e.len(), 2);
}

#[test]
fn an_entity_moves_by_its_velocity() {
    let mut e = living(100);
    e.position = point(10.0, 20.0);
    e.velocity = point(120.0, -60.0);
    let mut pool = vec![ExecutionEnvironment::new(&e)];
    Interpreter::<Ieee>::move_entities(&mut pool, 120, &Ieee);
    assert_eq!(coordinates(pool[0].entity.position), (11.0, 19.5));
    assert_eq!(coordinates(pool[0].entity.velocity), (120.0, -60.0));
    Interpreter::<Ieee>::move_entities(&mut pool, 60, &Ieee);
    assert_eq!(coordinates(pool[0].entity.position), (13.0, 18.5));
    assert_eq!(pool[0].elapsed, 0);
}

#[test]
fn a_fixed_speed_sets_the_velocity_along_the_rotation() {
    let mut e = living(100);
    e.speed = Some(10.0f64.to_bits());
    e.rotation = 0.0f64.to_bits();
    let mut pool = vec![ExecutionEnvironment::new(&e)];
    Interpreter::<Ieee>::move_entities(&mut pool, 10, &Ieee);
    assert_eq!(coordinates(pool[0].entity.velocity), (10.0, 0.0));
    assert_eq!(coordinates(pool[0].entity.position), (1.0, 0.0));
    pool[0].entity.rotation = 90.0f64.to_bits();
    Interpreter::<Ieee>::move_entities(&mut pool, 10, &Ieee);
    let (vx, vy) = coordinates(pool[0].entity.velocity);
    assert!(vx.abs() < 1e-5);
    assert!((vy - 10.0).abs() < 1e-5);
}

#[test]
fn a_velocity_path_overrides_the_fixed_speed() {
    let mut e = living(100);
    e.speed = Some(10.0f64.to_bits());
    e.velocity_fn = Some(scope(vec![("x", binary(Op::Mul, var("t"), whole(4))), ("y", decimal(2.0))]));
    let mut pool = vec![ExecutionEnvironment::new(&e)];
    pool[0].elapsed = 3;
    Interpreter::<Ieee>::move_entities(&mut pool, 2, &Ieee);
    assert_eq!(coordinates(pool[0].entity.velocity), (12.0, 2.0));
    assert_eq!(coordinates(pool[0].entity.position), (6.0, 1.0));
}

#[test]
fn a_position_path_puts_the_entity_where_it_says() {
    let mut e = living(100);
    e.velocity = point(99.0, 99.0);
    e.position = point(50.0, 50.0);
    e.position_fn = Some(scope(vec![
        ("x", binary(Op::Mul, var("t"), var("k"))),
        ("y", call("sqrt", var("t"))),
    ]));
    e.instance_vars = Some(scope(vec![("k", whole(3)), ("t", whole(1000))]));
    let mut pool = vec![ExecutionEnvironment::new(&e)];
    pool[0].elapsed = 4;
    Interpreter::<Ieee>::move_entities(&mut pool, 120, &Ieee);
    assert_eq!(coordinates(pool[0].entity.position), (12.0, 2.0));
    assert_eq!(coordinates(pool[0].entity.velocity), (99.0, 99.0));
    // a path field that fails counts as 0.0
    pool[0].entity.position_fn = Some(scope(vec![("x", var("missing"))]));
    Interpreter::<Ieee>::move_entities(&mut pool, 120, &Ieee);
    assert_eq!(coordinates(pool[0].entity.position), (0.0, 0.0));
}

#[test]
fn the_tick_moves_before_it_dispatches() {
    let mut w = world(vec![]);
    let mut e = living(100);
    e.velocity = point(120.0, 0.0);
    w.spawn_direct(&e).unwrap();
    w.step();
    assert_eq!(coordinates(w.entities[0].entity.position), (1.0, 0.0));
    assert_eq!(w.entities[0].elapsed, 1);
}

#[test]
fn swap_removing_at_several_places() {
    let mut v = vec!['a', 'b', 'c', 'd', 'e'];
    swap_remove_all(&mut v, &vec![0, 2]);
    assert_eq!(v, vec!['d', 'b', 'e']);
    let mut v = vec![1, 2, 3];
    swap_remove_all(&mut v, &vec![]);
    assert_eq!(v, vec![1, 2, 3]);
    swap_remove_all(&mut v, &vec![0, 1, 2]);
    assert_eq!(v, Vec::<i32>::new());
    let mut names = vec!["x".to_string(), "y".to_string(), "z".to_string()];
    let mut ages = vec![1, 2, 3];
    swap_remove_all(&mut names, &vec![0]);
    swap_remove_all(&mut ages, &vec![0]);
    assert_eq!(names, vec!["z".to_string(), "y".to_string()]);
    assert_eq!(ages, vec![3, 2]);
}

#[test]
fn a_registry_finds_the_latest_entry() {
    let mut r: Registry<u32> = Registry::new();
    assert_eq!(r.get(&"a".to_string()), None);
    r.insert("a".to_string(), 1);
    r.insert("b".to_string(), 2);
    r.insert("a".to_string(), 3);
    assert_eq!(r.get(&"a".to_string()), Some(&3));
    assert_eq!(r.get(&"b".to_string()), Some(&2));
    assert_eq!(r.len(), 3);
}

#[test]
fn an_entity_without_a_path_moves_by_its_velocity_over_one_frame() {
    let mut e = Entity::new();
    e.velocity = point(4.0, -2.0);
    let mut pool = vec![ExecutionEnvironment::new(&e)];
    let duration = pool[0].duration;
    Interpreter::<Ieee>::move_entities(&mut pool, 2, &Ieee);
    assert_eq!(pool.len(), 1);
    assert_eq!(coordinates(pool[0].entity.position), (2.0, -1.0));
    assert_eq!(coordinates(pool[0].entity.velocity), (4.0, -2.0));
    assert_eq!(pool[0].elapsed, 0);
    assert_eq!(pool[0].duration, duration);
}

#[test]
fn a_path_of_integers_sets_the_position() {
    let mut e = Entity::new();
    e.position_fn = Some(scope(vec![("x", var("t")), ("y", whole(3))]));
    e.velocity = point(100.0, 100.0);
    e.speed = Some(50.0f64.to_bits());
    let mut pool = vec![ExecutionEnvironment::new(&e)];
    pool[0].elapsed = 7;
    Interpreter::<Ieee>::move_entities(&mut pool, 120, &Ieee);
    assert_eq!(coordinates(pool[0].entity.position), (7.0, 3.0));
    assert_eq!(coordinates(pool[0].entity.velocity), (100.0, 100.0));
    assert_eq!(pool[0].elapsed, 7);
}

#[test]
fn a_malformed_entity_does_not_stop_the_others() {
    let mut broken = Entity::new();
    broken.position_fn = Some(scope(vec![("y", whole(3))]));
    let mut sound = Entity::new();
    sound.velocity = point(4.0, 0.0);
    let mut pool = vec![ExecutionEnvironment::new(&broken), ExecutionEnvironment::new(&sound)];
    Interpreter::<Ieee>::move_entities(&mut pool, 2, &Ieee);
    assert_eq!(coordinates(pool[0].entity.position), (0.0, 3.0));
    assert_eq!(coordinates(pool[1].entity.position), (2.0, 0.0));
}

#[test]
fn the_bindings_of_a_path_win_over_what_the_entity_carries() {
    let mut e = Entity::new();
    e.position_fn = Some(scope(vec![
        ("k", whole(2)),
        ("x", binary(Op::Mul, var("t"), var("k"))),
        ("y", var("m")),
    ]));
    e.instance_vars = Some(scope(vec![
        ("x", whole(99)),
        ("k", whole(50)),
        ("m", whole(5)),
        ("t", whole(1000)),
    ]));
    let mut pool = vec![ExecutionEnvironment::new(&e)];
    pool[0].elapsed = 3;
    Interpreter::<Ieee>::move_entities(&mut pool, 120, &Ieee);
    assert_eq!(coordinates(pool[0].entity.position), (6.0, 5.0));
}

#[test]
fn a_spawn_with_a_velocity_of_integers() {
    let mut w = world(vec![(
        "p",
        pattern(
            vec![],
            vec![spawn(vec![("velocity", ExpressionType::Vector(vec![whole(120), whole(0)]))])],
        ),
    )]);
    let mut e = Entity::new();
    e.behavior = Behavior::Pattern("p".to_string());
    w.spawn_direct(&e).unwrap();
    w.step();
    assert_eq!(w.entities.len(), 2);
    assert_eq!(w.actions.len(), 2);
    assert_eq!(w.entities[0].elapsed, 1);
    assert_eq!(w.entities[1].elapsed, 0);
    assert_eq!(w.entities[1].duration, 600);
    assert_eq!(coordinates(w.entities[1].entity.velocity), (120.0, 0.0));
    assert_eq!(coordinates(w.entities[1].entity.position), (0.0, 0.0));
}
