use patternscript::interpreter::entity::{Behavior, Color, Entity};
use patternscript::interpreter::float::{FloatBinary, FloatCompare, FloatFunction, FloatUnit};
use patternscript::interpreter::Interpreter;
use patternscript::parser::lexer::{ConditionToken, Keyword, Lexer, Token};
use patternscript::parser::parser::{
    ArithmeticExpression, Block, BulletData, Condition, ExpressionType, ForData, HeadData, Node,
    ParseError, Parser, PathData, PatternData, SpawnData, UnaryOperator, Values, WaitData,
    MAX_DEPTH,
};
use patternscript::parser::types::Op;
use patternscript::text::is_word;

struct Ieee;

impl FloatUnit for Ieee {
    fn int_value(&self, i: i64) -> u64 {
        self.from_int(i)
    }

    fn binary_value(&self, op: FloatBinary, a: u64, b: u64) -> u64 {
        self.binary(op, a, b)
    }

    fn compare_value(&self, op: FloatCompare, a: u64, b: u64) -> bool {
        self.compare(op, a, b)
    }

    fn function_value(&self, f: FloatFunction, a: u64) -> u64 {
        self.function(f, a)
    }

    fn u32_value(&self, a: u64) -> u32 {
        self.to_u32(a)
    }

    fn degrees_value(&self, a: u64) -> u64 {
        self.normalize_degrees(a)
    }

    fn int_degrees_value(&self, i: i64) -> u64 {
        self.normalize_degrees_int(i)
    }

    fn cos_value(&self, angle: u64) -> u64 {
        self.angle_cos(angle)
    }

    fn sin_value(&self, angle: u64) -> u64 {
        self.angle_sin(angle)
    }

    fn from_int(&self, i: i64) -> u64 {
        (i as f64).to_bits()
    }

    fn binary(&self, op: FloatBinary, a: u64, b: u64) -> u64 {
        let (a, b) = (f64::from_bits(a), f64::from_bits(b));
        let r = match op {
            FloatBinary::Add => a + b,
            FloatBinary::Sub => a - b,
            FloatBinary::Mul => a * b,
            FloatBinary::Div => a / b,
            FloatBinary::Pow => a.powf(b),
        };
        r.to_bits()
    }

    fn compare(&self, op: FloatCompare, a: u64, b: u64) -> bool {
        let (a, b) = (f64::from_bits(a), f64::from_bits(b));
        match op {
            FloatCompare::GT => a > b,
            FloatCompare::GTE => a >= b,
            FloatCompare::LT => a < b,
            FloatCompare::LTE => a <= b,
        }
    }

    fn function(&self, f: FloatFunction, a: u64) -> u64 {
        let a = f64::from_bits(a);
        let r = match f {
            FloatFunction::Negate => -1.0 * a,
            FloatFunction::Sqrt => a.sqrt(),
            FloatFunction::Sin => a.to_radians().sin(),
            FloatFunction::Cos => a.to_radians().cos(),
            FloatFunction::Tan => a.to_radians().tan(),
        };
        r.to_bits()
    }

    fn to_u32(&self, a: u64) -> u32 {
        f64::from_bits(a) as u32
    }

    fn normalize_degrees(&self, a: u64) -> u64 {
        ((f64::from_bits(a) as f32).rem_euclid(360.0) as f64).to_bits()
    }

    fn normalize_degrees_int(&self, i: i64) -> u64 {
        ((i as f32).rem_euclid(360.0) as f64).to_bits()
    }

    fn parse(&self, text: &str) -> u64 {
        text.parse::<f64>().unwrap_or(f64::NAN).to_bits()
    }

    fn angle_cos(&self, angle: u64) -> u64 {
        ((f64::from_bits(angle) as f32).to_radians().cos() as f64).to_bits()
    }

    fn angle_sin(&self, angle: u64) -> u64 {
        ((f64::from_bits(angle) as f32).to_radians().sin() as f64).to_bits()
    }
}

fn decimal(x: f64) -> ExpressionType {
    ExpressionType::Float(x.to_bits())
}

fn whole(i: i64) -> ExpressionType {
    ExpressionType::Int(i)
}

fn var(name: &str) -> ExpressionType {
    ExpressionType::Variable(name.to_string())
}

fn binary(op: Op, l: ExpressionType, r: ExpressionType) -> ExpressionType {
    ExpressionType::Expr(ArithmeticExpression::Binary(op, Box::new(l), Box::new(r)))
}

fn negate(e: ExpressionType) -> ExpressionType {
    ExpressionType::Expr(ArithmeticExpression::Unary(UnaryOperator::Negate, Box::new(e)))
}

fn call(name: &str, arg: ExpressionType) -> ExpressionType {
    ExpressionType::Expr(ArithmeticExpression::Unary(
        UnaryOperator::FunctionCall(name.to_string()),
        Box::new(arg),
    ))
}

fn scope(bindings: Vec<(&str, ExpressionType)>) -> Values {
    let mut v = Values::new();
    for (name, e) in bindings {
        v.insert(name.to_string(), e);
    }
    v
}

fn tokens(source: &str) -> Vec<Token> {
    let mut lexer = Lexer::new(source.to_string());
    let mut out = vec![];
    loop {
        let t = lexer.next_token().unwrap();
        let end = t == Token::EOF;
        out.push(t);
        if end {
            return out;
        }
    }
}

fn id(name: &str) -> Token {
    Token::Id(name.to_string())
}

fn number(text: &str) -> Token {
    Token::Number(text.to_string())
}

fn parse(source: &str) -> Result<Node, ParseError> {
    Parser::parse_from_string(source.to_string(), &Ieee)
}

fn parser(source: &str) -> Parser {
    Parser::new(Lexer::new(source.to_string()))
}

fn expression(source: &str) -> Result<ExpressionType, ParseError> {
    parser(source).parse_expression(MAX_DEPTH, &Ieee)
}

fn definitions(node: Node) -> Vec<(String, Node)> {
    match node {
        Node::Head(h) => h.definitions,
        other => panic!("no head: {:?}", other),
    }
}

#[test]
fn punctuation_and_operators_are_tokens() {
    assert_eq!(
        tokens("( ) { } , ; + - * / ^ = == > >= < <= ..."),
        vec![
            Token::OpenParen,
            Token::CloseParen,
            Token::OpenBlock,
            Token::CloseBlock,
            Token::Comma,
            Token::Semicolon,
            Token::Operator(Op::Add),
            Token::Operator(Op::Sub),
            Token::Operator(Op::Mul),
            Token::Operator(Op::Div),
            Token::Operator(Op::Exp),
            Token::Assign,
            Token::Operator(Op::Test),
            Token::Operator(Op::GT),
            Token::Operator(Op::GTE),
            Token::Operator(Op::LT),
            Token::Operator(Op::LTE),
            Token::RangeSeparator,
            Token::EOF,
        ]
    );
}

#[test]
fn keywords_are_words_before_a_terminator() {
    assert_eq!(
        tokens("for wait spawn bullet path pattern let seconds frames and or unless when"),
        vec![
            Token::Keyword(Keyword::For),
            Token::Keyword(Keyword::Wait),
            Token::Keyword(Keyword::Spawn),
            Token::Keyword(Keyword::Bullet),
            Token::Keyword(Keyword::Path),
            Token::Keyword(Keyword::Pattern),
            Token::Keyword(Keyword::Let),
            Token::Keyword(Keyword::Seconds),
            Token::Keyword(Keyword::Frames),
            Token::Operator(Op::And),
            Token::Operator(Op::Or),
            Token::Condition(ConditionToken::Unless),
            Token::Condition(ConditionToken::When),
            Token::EOF,
        ]
    );
    assert_eq!(
        tokens("for( frames; spawn{ or= origin fortune for-x wait_3 for,"),
        vec![
            Token::Keyword(Keyword::For),
            Token::OpenParen,
            Token::Keyword(Keyword::Frames),
            Token::Semicolon,
            Token::Keyword(Keyword::Spawn),
            Token::OpenBlock,
            Token::Operator(Op::Or),
            Token::Assign,
            id("origin"),
            id("fortune"),
            id("for-x"),
            id("wait_3"),
            id("for"),
            Token::Comma,
            Token::EOF,
        ]
    );
}

#[test]
fn numbers_and_ranges_are_told_apart() {
    assert_eq!(
        tokens("12 3.25 0...3 7. 10...20"),
        vec![
            number("12"),
            number("3.25"),
            number("0"),
            Token::RangeSeparator,
            number("3"),
            number("7."),
            number("10"),
            Token::RangeSeparator,
            number("20"),
            Token::EOF,
        ]
    );
    assert_eq!(tokens("42"), vec![number("42"), Token::EOF]);
    assert_eq!(tokens("4.5"), vec![number("4.5"), Token::EOF]);
}

#[test]
fn strings_keep_what_a_backslash_protects() {
    assert_eq!(
        tokens(r#""plain" "a \"quoted\" word" "back\\slash" """#),
        vec![
            Token::String("plain".to_string()),
            Token::String("a \"quoted\" word".to_string()),
            Token::String("back\\slash".to_string()),
            Token::String(String::new()),
            Token::EOF,
        ]
    );
    assert_eq!(tokens("\"open"), vec![Token::LexerError('"'), Token::EOF]);
}

#[test]
fn comments_and_blanks_are_passed_over() {
    assert_eq!(
        tokens("a // the rest; of the line\n  b\t// and to the end"),
        vec![id("a"), id("b"), Token::EOF]
    );
    assert_eq!(tokens(""), vec![Token::EOF]);
    assert_eq!(tokens("  \n\t "), vec![Token::EOF]);
    assert_eq!(tokens("//"), vec![Token::EOF]);
    assert_eq!(tokens("a / b"), vec![id("a"), Token::Operator(Op::Div), id("b"), Token::EOF]);
}

#[test]
fn other_characters_are_lexer_errors() {
    assert_eq!(
        tokens("a ? . b"),
        vec![id("a"), Token::LexerError('?'), Token::LexerError('.'), id("b"), Token::EOF]
    );
}

#[test]
fn the_end_of_the_source_is_met_again_and_again() {
    let mut lexer = Lexer::new("x".to_string());
    assert_eq!(lexer.next_token(), Some(id("x")));
    assert_eq!(lexer.next_token(), Some(Token::EOF));
    assert_eq!(lexer.next_token(), Some(Token::EOF));
}

#[test]
fn looking_ahead_reads_nothing() {
    let mut lexer = Lexer::new("a = 1;".to_string());
    assert_eq!(lexer.lookahead(1), Some(id("a")));
    assert_eq!(lexer.lookahead(0), Some(id("a")));
    assert_eq!(lexer.lookahead(2), Some(Token::Assign));
    assert_eq!(lexer.lookahead(3), Some(number("1")));
    assert_eq!(lexer.lookahead(9), Some(Token::EOF));
    assert_eq!(lexer.next_token(), Some(id("a")));
    assert_eq!(lexer.lookahead(1), Some(Token::Assign));
    let mut p = parser("a = 1;");
    assert_eq!(p.lookahead(2), Ok(Token::Assign));
    assert_eq!(p.next_token(), Ok(id("a")));
    assert_eq!(p.expect_next(Token::Assign), Ok(Token::Assign));
    assert_eq!(
        p.expect_next(Token::Semicolon),
        Err(ParseError::Expected(Token::Semicolon, number("1")))
    );
}

#[test]
fn tokens_are_compared_by_kind_and_text() {
    assert!(id("a").same(&id("a")));
    assert!(!id("a").same(&id("b")));
    assert!(!id("a").same(&number("a")));
    assert!(Token::EOF.same(&Token::EOF));
    assert!(!Token::EOF.same(&Token::Comma));
    assert!(Token::Operator(Op::Add).same(&Token::Operator(Op::Add)));
    assert!(!Token::Operator(Op::Add).same(&Token::Operator(Op::Sub)));
    assert!(is_word(&"time".to_string(), "time"));
    assert!(!is_word(&"time".to_string(), "times"));
}

#[test]
fn operators_bind_by_their_precedence() {
    let p = parser("");
    let table = [
        (Op::Or, 0),
        (Op::And, 1),
        (Op::Test, 2),
        (Op::GT, 2),
        (Op::LT, 2),
        (Op::GTE, 2),
        (Op::LTE, 2),
        (Op::Add, 3),
        (Op::Sub, 3),
        (Op::Mul, 5),
        (Op::Div, 5),
        (Op::Exp, 6),
    ];
    for (op, precedence) in table {
        assert_eq!(p.operator_precedence(&op), precedence);
    }
    assert_eq!(
        expression("1 + 2 * 3;"),
        Ok(binary(Op::Add, whole(1), binary(Op::Mul, whole(2), whole(3))))
    );
    assert_eq!(
        expression("1 * 2 + 3;"),
        Ok(binary(Op::Add, binary(Op::Mul, whole(1), whole(2)), whole(3)))
    );
    assert_eq!(
        expression("a < 2 and b or c;"),
        Ok(binary(
            Op::Or,
            binary(Op::And, binary(Op::LT, var("a"), whole(2)), var("b")),
            var("c")
        ))
    );
    assert_eq!(
        expression("(1 + 2) * 3;"),
        Ok(binary(Op::Mul, binary(Op::Add, whole(1), whole(2)), whole(3)))
    );
    assert_eq!(
        expression("-x + 1;"),
        Ok(binary(Op::Add, negate(var("x")), whole(1)))
    );
    assert_eq!(
        expression("-x * 2;"),
        Ok(negate(binary(Op::Mul, var("x"), whole(2))))
    );
}

#[test]
fn values_are_parsed() {
    assert_eq!(expression("42;"), Ok(whole(42)));
    assert_eq!(expression("4.5;"), Ok(decimal(4.5)));
    assert_eq!(expression("\"text\";"), Ok(ExpressionType::String("text".to_string())));
    assert_eq!(expression("name;"), Ok(var("name")));
    assert_eq!(
        expression("(1, x + 1, (2))}"),
        Ok(ExpressionType::Vector(vec![
            whole(1),
            binary(Op::Add, var("x"), whole(1)),
            whole(2)
        ]))
    );
    assert_eq!(
        expression("((1, 2), 3);"),
        Ok(ExpressionType::Vector(vec![
            ExpressionType::Vector(vec![whole(1), whole(2)]),
            whole(3)
        ]))
    );
    assert_eq!(expression("sin(x);"), Ok(call("sin", var("x"))));
    assert_eq!(
        expression("line(t, 3);"),
        Ok(call("line", ExpressionType::Vector(vec![var("t"), whole(3)])))
    );
    assert_eq!(expression("now();"), Ok(call("now", ExpressionType::Nothing)));
    assert_eq!(
        expression("{ a = 1; };"),
        Ok(ExpressionType::Block(Block {
            definitions: scope(vec![("a", whole(1))]),
            statements: vec![]
        }))
    );
}

#[test]
fn durations_are_numbers_with_a_unit() {
    assert_eq!(
        expression("30 frames;"),
        Ok(ExpressionType::Duration(Box::new(WaitData::Frames(whole(30)))))
    );
    assert_eq!(
        expression("2 seconds;"),
        Ok(ExpressionType::Duration(Box::new(WaitData::Time(whole(2)))))
    );
    assert_eq!(
        expression("0.5 seconds;"),
        Ok(ExpressionType::Duration(Box::new(WaitData::Time(decimal(0.5)))))
    );
    assert_eq!(expression("0.5 frames;"), Err(ParseError::TimeTypeError));
    assert_eq!(expression("x seconds;"), Err(ParseError::TimeTypeError));
    assert_eq!(expression("(1, 2) frames;"), Err(ParseError::TimeTypeError));
    assert_eq!(
        expression("2 seconds"),
        Err(ParseError::Expected(Token::Semicolon, Token::EOF))
    );
    assert_eq!(parser("30 frames;").parse_wait(MAX_DEPTH, &Ieee), Ok(WaitData::Frames(whole(30))));
    assert_eq!(
        parser("30;").parse_wait(MAX_DEPTH, &Ieee),
        Err(ParseError::NeedsClearerError("Found invalid time expression"))
    );
}

#[test]
fn expressions_that_do_not_parse() {
    assert_eq!(
        expression("1 2"),
        Err(ParseError::NeedsClearerError("Expressions should end in } or ;."))
    );
    assert_eq!(
        expression(";"),
        Err(ParseError::NeedsClearerError(
            "Expected value within operator parsing, got token"
        ))
    );
    assert_eq!(expression("(1, 2;"), Err(ParseError::EOF));
    assert_eq!(expression("(1 2, 3)"), Err(ParseError::BadVecElement));
    assert_eq!(
        expression("(1 + 2;"),
        Err(ParseError::EOF)
    );
    assert_eq!(expression("99999999999999999999;"), Err(ParseError::InvalidNumber));
    assert_eq!(expression("9223372036854775807;"), Ok(whole(i64::MAX)));
    assert_eq!(expression("9223372036854775808;"), Err(ParseError::InvalidNumber));
    let deep = "(".repeat(400) + "1" + &")".repeat(400) + ";";
    assert_eq!(expression(&deep), Err(ParseError::TooDeep));
    let shallow = "(".repeat(50) + "1" + &")".repeat(50) + ";";
    assert_eq!(expression(&shallow), Ok(whole(1)));
}

#[test]
fn numbers_and_ranges_are_parsed() {
    assert_eq!(parser("12").parse_number(&Ieee), Ok(whole(12)));
    assert_eq!(parser("1.25").parse_number(&Ieee), Ok(decimal(1.25)));
    assert_eq!(parser("x").parse_number(&Ieee), Err(ParseError::InvalidNumber));
    assert_eq!(parser("0...3").parse_range(&Ieee), Ok(ExpressionType::Range(0, 3)));
    assert_eq!(parser("0.5...3").parse_range(&Ieee), Err(ParseError::RangeMustBeInt));
    assert_eq!(parser("0...3.5").parse_range(&Ieee), Err(ParseError::RangeMustBeInt));
    assert_eq!(
        parser("0 3").parse_range(&Ieee),
        Err(ParseError::Expected(Token::RangeSeparator, number("3")))
    );
}

#[test]
fn loops_are_parsed() {
    let expected = |condition: Condition| ForData {
        initial_definitions: {
            let mut v = Values::new();
            v.insert("i".to_string(), ExpressionType::Range(0, 3));
            v.insert("j".to_string(), ExpressionType::Range(1, 2));
            v
        },
        condition,
        body: Block {
            definitions: Values::new(),
            statements: vec![Node::Wait(WaitData::Frames(whole(1)))],
        },
    };
    assert_eq!(
        parser("(i = 0...3, j = 1...2) { wait 1 frames; }").parse_for(MAX_DEPTH, &Ieee),
        Ok(expected(Condition::Always))
    );
    assert_eq!(
        parser("(i = 0...3, j = 1...2) when (i < j) { wait 1 frames; }").parse_for(MAX_DEPTH, &Ieee),
        Ok(expected(Condition::When(binary(Op::LT, var("i"), var("j")))))
    );
    assert_eq!(
        parser("(i = 0...3, j = 1...2) unless (i == j) { wait 1 frames; }")
            .parse_for(MAX_DEPTH, &Ieee),
        Ok(expected(Condition::Unless(binary(Op::Test, var("i"), var("j")))))
    );
    assert_eq!(
        parser("(i = 0...3; j = 1...2) {}").parse_for(MAX_DEPTH, &Ieee),
        Err(ParseError::InvalidForDef)
    );
    assert_eq!(
        parser("(i = 0...3) if (i) {}").parse_for(MAX_DEPTH, &Ieee),
        Err(ParseError::Token(id("if")))
    );
}

#[test]
fn blocks_are_parsed() {
    let block = parser("{ a = 1; spawn { lifetime = 2; } wait 2 seconds; b = (1, 2) }")
        .parse_block(MAX_DEPTH, &Ieee)
        .unwrap();
    assert_eq!(
        block,
        Block {
            definitions: scope(vec![
                ("a", whole(1)),
                ("b", ExpressionType::Vector(vec![whole(1), whole(2)]))
            ]),
            statements: vec![
                Node::Spawn(SpawnData { definitions: scope(vec![("lifetime", whole(2))]) }),
                Node::Wait(WaitData::Time(whole(2))),
            ],
        }
    );
    assert_eq!(
        parser("{ a = 1; ").parse_block(MAX_DEPTH, &Ieee),
        Err(ParseError::Token(Token::EOF))
    );
    assert_eq!(
        parser("{ 1 }").parse_block(MAX_DEPTH, &Ieee),
        Err(ParseError::Token(number("1")))
    );
    assert_eq!(
        parser("a = 1; }").parse_block(MAX_DEPTH, &Ieee),
        Err(ParseError::Expected(Token::OpenBlock, id("a")))
    );
    assert_eq!(
        parser("{ a = 1; wait 1 frames; }").parse_values(MAX_DEPTH, &Ieee),
        Err(ParseError::Definitions)
    );
    assert_eq!(
        parser("{ a = 1; }").parse_values(MAX_DEPTH, &Ieee),
        Ok(scope(vec![("a", whole(1))]))
    );
    assert_eq!(
        parser("{ a = 1; }").parse_spawn(MAX_DEPTH, &Ieee),
        Ok(SpawnData { definitions: scope(vec![("a", whole(1))]) })
    );
    assert_eq!(parser("{ }").parse_block(0, &Ieee), Err(ParseError::TooDeep));
}

#[test]
fn a_source_is_parsed_into_its_head() {
    let source = "
        // a small script
        bullet shot = {
            color = (255, 255, 0);
            lifetime = 400;
        }
        path line(t, slope) = {
            x = t;
            y = t * slope;
        }
        pattern burst = {
            iteration_type = cycles;
            length = 2;
            actions = {
                for (i = 0...3) {
                    spawn {
                        type = shot;
                        position = (i, 0);
                    }
                }
                wait 30 frames;
            }
        }
    ";
    let defs = definitions(parse(source).unwrap());
    assert_eq!(
        defs.iter().map(|d| d.0.clone()).collect::<Vec<_>>(),
        vec!["shot".to_string(), "line".to_string(), "burst".to_string()]
    );
    assert_eq!(
        defs[0].1,
        Node::Bullet(BulletData {
            definitions: scope(vec![
                ("color", ExpressionType::Vector(vec![whole(255), whole(255), whole(0)])),
                ("lifetime", whole(400))
            ])
        })
    );
    assert_eq!(
        defs[1].1,
        Node::Path(PathData {
            arguments: ExpressionType::Vector(vec![var("t"), var("slope")]),
            definitions: scope(vec![
                ("x", var("t")),
                ("y", binary(Op::Mul, var("t"), var("slope")))
            ]),
        })
    );
    let mut vars = Values::new();
    vars.insert("i".to_string(), ExpressionType::Range(0, 3));
    let actions = Block {
        definitions: Values::new(),
        statements: vec![
            Node::For(ForData {
                initial_definitions: vars,
                condition: Condition::Always,
                body: Block {
                    definitions: Values::new(),
                    statements: vec![Node::Spawn(SpawnData {
                        definitions: scope(vec![
                            ("type", var("shot")),
                            ("position", ExpressionType::Vector(vec![var("i"), whole(0)])),
                        ]),
                    })],
                },
            }),
            Node::Wait(WaitData::Frames(whole(30))),
        ],
    };
    assert_eq!(
        defs[2].1,
        Node::Pattern(PatternData {
            block: Block {
                definitions: scope(vec![
                    ("iteration_type", var("cycles")),
                    ("length", whole(2)),
                    ("actions", ExpressionType::Block(actions)),
                ]),
                statements: vec![],
            }
        })
    );
    assert_eq!(parse(""), Ok(Node::Head(HeadData { definitions: vec![] })));
    assert_eq!(parser("").evaluate(&Ieee), Ok(Node::Head(HeadData { definitions: vec![] })));
}

#[test]
fn sources_that_do_not_parse() {
    assert_eq!(parse("spawn {}"), Err(ParseError::Token(Token::Keyword(Keyword::Spawn))));
    assert_eq!(
        parse("pattern = {}"),
        Err(ParseError::Expected(Token::String("Id".to_string()), Token::Assign))
    );
    assert_eq!(
        parse("bullet 3 = {}"),
        Err(ParseError::Expected(Token::String("Id".to_string()), number("3")))
    );
    assert_eq!(
        parse("path 3 = {}"),
        Err(ParseError::Expected(Token::String("Id".to_string()), number("3")))
    );
    assert_eq!(
        parse("pattern p { }"),
        Err(ParseError::Expected(Token::Assign, Token::OpenBlock))
    );
    assert_eq!(
        parse("bullet b = { wait 1 frames; }"),
        Err(ParseError::Definitions)
    );
    assert_eq!(
        parse("pattern p = { a = 99999999999999999999; }"),
        Err(ParseError::InvalidNumber)
    );
    assert_eq!(
        parse("pattern p = { a = 1.2.3; }"),
        Err(ParseError::NeedsClearerError("Expressions should end in } or ;."))
    );
}

#[test]
fn a_script_runs_from_source_to_entities() {
    let source = "
        bullet shot = { color = (0, 128, 255); lifetime = 3; }
        pattern burst = {
            actions = {
                for (i = 0...3) {
                    spawn { type = shot; position = (i * 10, 5); velocity = (0, 120); }
                }
                wait 2 frames;
                spawn { lifetime = 50; speed = 2.5; }
            }
        }
    ";
    let mut world = Interpreter::from_parse_result(parse(source).unwrap(), Ieee).unwrap();
    let mut boss = Entity::new();
    boss.behavior = Behavior::Pattern("burst".to_string());
    boss.lifetime = 1000;
    world.spawn_direct(&boss).unwrap();
    assert_eq!(world.actions[0].iter().map(|t| t.frame).collect::<Vec<_>>(), vec![0, 0, 0, 2]);
    world.step();
    assert_eq!(world.entities.len(), 4);
    for (k, shot) in world.entities[1..].iter().enumerate() {
        assert_eq!(f64::from_bits(shot.entity.position.x), 10.0 * k as f64);
        assert_eq!(f64::from_bits(shot.entity.position.y), 5.0);
        assert_eq!(shot.entity.color, Color { x: 0, y: 128, z: 255 });
        assert_eq!(shot.duration, 3);
    }
    world.step();
    assert_eq!(world.entities.len(), 4);
    assert_eq!(f64::from_bits(world.entities[1].entity.position.y), 6.0);
    world.step();
    assert_eq!(world.entities.len(), 5);
    assert_eq!(world.entities[4].duration, 50);
    assert_eq!(world.entities[4].entity.speed.map(f64::from_bits), Some(2.5));
    world.step();
    assert_eq!(world.entities.len(), 5);
    world.step();
    // the three shots have lived out their three frames
    assert_eq!(
        world.entities.iter().map(|e| e.duration).collect::<Vec<_>>(),
        vec![1000, 50]
    );
    assert_eq!(world.entities.len(), world.actions.len());
    assert_eq!(world.elapsed, 5);
}
