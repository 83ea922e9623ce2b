use super::lexer::{
    digit, lemma_token_spec, peek, token_spec, ConditionToken, Keyword, Lexer, Token, TokenModel,
};
use super::types::Op;
use crate::interpreter::float::FloatUnit;
use vstd::prelude::*;
use vstd::string::{StrSliceExecFns, StringExecFns};

verus! {

/// Mathematical model of a scope: bindings in insertion order, later ones
/// shadowing earlier ones of the same name.
pub type ScopeModel = Seq<(Seq<char>, ExprModel)>;

/// Mathematical model of an expression tree.
pub enum ExprModel {
    Int(i64),
    Float(u64),
    Str(Seq<char>),
    Range(i64, i64),
    Block(BlockModel),
    Variable(Seq<char>),
    Duration(Box<WaitModel>),
    Vector(Seq<ExprModel>),
    Negate(Box<ExprModel>),
    Call(Seq<char>, Box<ExprModel>),
    Binary(Op, Box<ExprModel>, Box<ExprModel>),
    Nothing,
}

/// Mathematical model of a block.
pub struct BlockModel {
    pub definitions: ScopeModel,
    pub statements: Seq<NodeModel>,
}

/// Mathematical model of a duration.
pub enum WaitModel {
    Frames(ExprModel),
    Time(ExprModel),
}

/// Mathematical model of a guard.
pub enum CondModel {
    When(ExprModel),
    Unless(ExprModel),
    Always,
}

/// Mathematical model of a loop.
pub struct ForModel {
    pub initial_definitions: ScopeModel,
    pub condition: CondModel,
    pub body: BlockModel,
}

/// Mathematical model of a node.
pub enum NodeModel {
    Head(Seq<(Seq<char>, NodeModel)>),
    Pattern(BlockModel),
    Bullet(ScopeModel),
    Path(ExprModel, ScopeModel),
    Wait(WaitModel),
    For(ForModel),
    Spawn(ScopeModel),
}

/// Why a source does not parse.
#[derive(Debug, PartialEq, Clone)]
pub enum ParseError {
    /// This token cannot stand here.
    Token(Token),
    /// The first token was expected, the second one found.
    Expected(Token, Token),
    /// The source ends too early.
    EOF,
    /// Only definitions may stand in this block.
    Definitions,
    /// The numeral stands for no number.
    InvalidNumber,
    /// The variables of a loop are not of the form `a = 1...2, b = 3...4`.
    InvalidForDef,
    /// A bound of a range is no integer.
    RangeMustBeInt,
    /// A vector element is followed by neither a comma nor a bracket.
    BadVecElement,
    /// Frames are no integer, or seconds no number.
    TimeTypeError,
    /// Another error, in words.
    NeedsClearerError(&'static str),
    /// The source is nested deeper than the parser goes.
    TooDeep,
}

/// The definitions of a source, each with its name, in the order of the source.
#[derive(Debug, PartialEq)]
pub struct HeadData {
    pub definitions: Vec<(String, Node)>,
}

/// An ordered list of name bindings. Looking a name up finds its latest
/// binding, so inserting a name again shadows what was bound before.
#[derive(Debug, PartialEq)]
pub struct Values {
    pub entries: Vec<(String, ExpressionType)>,
}

/// An operator with its operands.
#[derive(Debug, PartialEq)]
pub enum ArithmeticExpression {
    Unary(UnaryOperator, Box<ExpressionType>),
    Binary(Op, Box<ExpressionType>, Box<ExpressionType>),
}

/// What is applied to one operand: negation, or the function of this name.
#[derive(Debug, PartialEq)]
pub enum UnaryOperator {
    Negate,
    FunctionCall(String),
}

/// An expression. A `Float` holds the IEEE-754 bit pattern of a double.
#[derive(Debug, PartialEq)]
pub enum ExpressionType {
    Int(i64),
    Float(u64),
    String(String),
    Range(i64, i64),
    Block(Block),
    Variable(String),
    Duration(Box<WaitData>),
    Vector(Vec<ExpressionType>),
    Expr(ArithmeticExpression),
    Nothing,
}

/// Definitions and statements between braces.
#[derive(Debug, PartialEq)]
pub struct Block {
    pub definitions: Values,
    pub statements: Vec<Node>,
}

/// A pattern: a block whose definitions say what it does (`actions`) and how
/// often (`iteration_type`, `length`).
#[derive(Debug, PartialEq)]
pub struct PatternData {
    pub block: Block,
}

/// A bullet: default fields for the entities that a spawn makes of it.
#[derive(Debug, PartialEq)]
pub struct BulletData {
    pub definitions: Values,
}

/// A path: formal arguments, and definitions of `x` and `y` in terms of them
/// and of the time `t`.
#[derive(Debug, PartialEq)]
pub struct PathData {
    pub arguments: ExpressionType,
    pub definitions: Values,
}

/// A name with the expression assigned to it.
#[derive(Debug, PartialEq)]
pub struct AssignmentData {
    pub lvalue: String,
    pub rvalue: ExpressionType,
}

/// A duration, in frames or in seconds.
#[derive(Debug, PartialEq)]
pub enum WaitData {
    Frames(ExpressionType),
    Time(ExpressionType),
}

/// The guard of a loop.
#[derive(Debug, PartialEq)]
pub enum Condition {
    When(ExpressionType),
    Unless(ExpressionType),
    Always,
}

/// A loop: its variables with their ranges, its guard and its body.
#[derive(Debug, PartialEq)]
pub struct ForData {
    pub initial_definitions: Values,
    pub condition: Condition,
    pub body: Block,
}

/// The fields of a spawn.
#[derive(Debug, PartialEq)]
pub struct SpawnData {
    pub definitions: Values,
}

/// A definition or a statement.
#[derive(Debug, PartialEq)]
pub enum Node {
    Head(HeadData),
    Pattern(PatternData),
    Bullet(BulletData),
    Path(PathData),
    Wait(WaitData),
    For(ForData),
    Spawn(SpawnData),
}

/// The models of some expressions.
pub open spec fn exprs_model(v: Seq<ExpressionType>) -> Seq<ExprModel>
    decreases v,
{
    Seq::new(v.len(), |i: int| if 0 <= i < v.len() { v[i].model() } else { ExprModel::Nothing })
}

/// The models of some nodes.
pub open spec fn nodes_model(v: Seq<Node>) -> Seq<NodeModel>
    decreases v,
{
    Seq::new(v.len(), |i: int| if 0 <= i < v.len() { v[i].model() } else { NodeModel::Spawn(Seq::empty()) })
}

/// The model of some bindings.
pub open spec fn bindings_model(v: Seq<(String, ExpressionType)>) -> ScopeModel
    decreases v,
{
    Seq::new(v.len(), |i: int| if 0 <= i < v.len() { (v[i].0@, v[i].1.model()) } else { (Seq::empty(), ExprModel::Nothing) })
}

/// The models of some named nodes.
pub open spec fn toplevel_model(v: Seq<(String, Node)>) -> Seq<(Seq<char>, NodeModel)>
    decreases v,
{
    Seq::new(v.len(), |i: int| if 0 <= i < v.len() { (v[i].0@, v[i].1.model()) } else { (Seq::empty(), NodeModel::Spawn(Seq::empty())) })
}

impl ExpressionType {
    /// The mathematical model of this.
    pub open spec fn model(&self) -> ExprModel
        decreases self,
    {
        match self {
            ExpressionType::Int(i) => ExprModel::Int(*i),
            ExpressionType::Float(f) => ExprModel::Float(*f),
            ExpressionType::String(s) => ExprModel::Str(s@),
            ExpressionType::Range(a, b) => ExprModel::Range(*a, *b),
            ExpressionType::Block(b) => ExprModel::Block(b.model()),
            ExpressionType::Variable(s) => ExprModel::Variable(s@),
            ExpressionType::Duration(w) => ExprModel::Duration(Box::new(w.model())),
            ExpressionType::Vector(v) => ExprModel::Vector(exprs_model(v@)),
            ExpressionType::Expr(e) => e.model(),
            ExpressionType::Nothing => ExprModel::Nothing,
        }
    }
}

impl ArithmeticExpression {
    /// The mathematical model of this.
    pub open spec fn model(&self) -> ExprModel
        decreases self,
    {
        match self {
            ArithmeticExpression::Unary(UnaryOperator::Negate, e) => ExprModel::Negate(Box::new(e.model())),
            ArithmeticExpression::Unary(UnaryOperator::FunctionCall(f), e) => ExprModel::Call(f@, Box::new(e.model())),
            ArithmeticExpression::Binary(op, l, r) => ExprModel::Binary(*op, Box::new(l.model()), Box::new(r.model())),
        }
    }
}

impl Values {
    /// The mathematical model of this.
    pub open spec fn model(&self) -> ScopeModel
        decreases self,
    {
        bindings_model(self.entries@)
    }
}

impl Block {
    /// The mathematical model of this.
    pub open spec fn model(&self) -> BlockModel
        decreases self,
    {
        BlockModel { definitions: self.definitions.model(), statements: nodes_model(self.statements@) }
    }
}

impl WaitData {
    /// The mathematical model of this.
    pub open spec fn model(&self) -> WaitModel
        decreases self,
    {
        match self {
            WaitData::Frames(e) => WaitModel::Frames(e.model()),
            WaitData::Time(e) => WaitModel::Time(e.model()),
        }
    }
}

impl Condition {
    /// The mathematical model of this.
    pub open spec fn model(&self) -> CondModel
        decreases self,
    {
        match self {
            Condition::When(e) => CondModel::When(e.model()),
            Condition::Unless(e) => CondModel::Unless(e.model()),
            Condition::Always => CondModel::Always,
        }
    }
}

impl ForData {
    /// The mathematical model of this.
    pub open spec fn model(&self) -> ForModel
        decreases self,
    {
        ForModel {
            initial_definitions: self.initial_definitions.model(),
            condition: self.condition.model(),
            body: self.body.model(),
        }
    }
}

impl Node {
    /// The mathematical model of this.
    pub open spec fn model(&self) -> NodeModel
        decreases self,
    {
        match self {
            Node::Head(h) => NodeModel::Head(toplevel_model(h.definitions@)),
            Node::Pattern(p) => NodeModel::Pattern(p.block.model()),
            Node::Bullet(b) => NodeModel::Bullet(b.definitions.model()),
            Node::Path(p) => NodeModel::Path(p.arguments.model(), p.definitions.model()),
            Node::Wait(w) => NodeModel::Wait(w.model()),
            Node::For(f) => NodeModel::For(f.model()),
            Node::Spawn(s) => NodeModel::Spawn(s.definitions.model()),
        }
    }
}

/// The model of an expression is of the same kind as the expression.
pub proof fn lemma_model_variant(e: ExpressionType)
    ensures
        e.model() is Int <==> e is Int,
        e.model() is Float <==> e is Float,
        e.model() is Str <==> e is String,
        e.model() is Range <==> e is Range,
        e.model() is Block <==> e is Block,
        e.model() is Variable <==> e is Variable,
        e.model() is Duration <==> e is Duration,
        e.model() is Vector <==> e is Vector,
        e.model() is Nothing <==> e is Nothing,
        e.model() is Negate || e.model() is Call || e.model() is Binary <==> e is Expr,
{
    reveal_with_fuel(ExpressionType::model, 2);
    reveal_with_fuel(ArithmeticExpression::model, 2);
    match e {
        ExpressionType::Expr(a) => match a {
            ArithmeticExpression::Unary(UnaryOperator::Negate, _) => {},
            ArithmeticExpression::Unary(UnaryOperator::FunctionCall(_), _) => {},
            ArithmeticExpression::Binary(_, _, _) => {},
        },
        _ => {},
    }
}

/// The place of the latest binding of `name` in `s`, or -1 where `s` binds
/// it nowhere.
pub open spec fn position(s: ScopeModel, name: Seq<char>) -> int
    decreases s.len(),
{
    if s.len() == 0 {
        -1
    } else if s.last().0 == name {
        s.len() - 1
    } else {
        position(s.drop_last(), name)
    }
}

/// The expression that `name` is bound to in `s`: that of its latest binding.
pub open spec fn lookup(s: ScopeModel, name: Seq<char>) -> Option<ExprModel> {
    let i = position(s, name);
    if i >= 0 {
        Some(s[i].1)
    } else {
        None
    }
}

/// The latest binding of a name lies in the scope and bears that name, and
/// no later binding does.
pub proof fn lemma_position(s: ScopeModel, name: Seq<char>)
    ensures
        -1 <= position(s, name) < s.len(),
        position(s, name) >= 0 ==> s[position(s, name)].0 == name,
        forall|j: int| position(s, name) < j < s.len() ==> (#[trigger] s[j]).0 != name,
    decreases s.len(),
{
    if s.len() > 0 && s.last().0 != name {
        lemma_position(s.drop_last(), name);
        assert forall|j: int| position(s, name) < j < s.len() implies (#[trigger] s[j]).0 != name by {
            if j < s.len() - 1 {
                assert(s.drop_last()[j] == s[j]);
            }
        }
    }
}

/// Looking a name up in two scopes laid one over the other finds the binding
/// of the upper scope, and that of the lower scope only where the upper one
/// has none.
pub proof fn lemma_lookup_layered(lower: ScopeModel, upper: ScopeModel, name: Seq<char>)
    ensures
        lookup(lower + upper, name) == match lookup(upper, name) {
            Some(e) => Some(e),
            None => lookup(lower, name),
        },
        position(lower + upper, name) == if position(upper, name) >= 0 {
            lower.len() + position(upper, name)
        } else {
            position(lower, name)
        },
    decreases upper.len(),
{
    lemma_position(upper, name);
    if upper.len() == 0 {
        assert(lower + upper =~= lower);
    } else {
        assert((lower + upper).drop_last() =~= lower + upper.drop_last());
        assert((lower + upper).last() == upper.last());
        if upper.last().0 != name {
            lemma_lookup_layered(lower, upper.drop_last(), name);
            lemma_position(upper.drop_last(), name);
        }
    }
    lemma_position(lower, name);
    let i = position(upper, name);
    if i >= 0 {
        assert((lower + upper)[lower.len() + i] == upper[i]);
    } else {
        let j = position(lower, name);
        if j >= 0 {
            assert((lower + upper)[j] == lower[j]);
        }
    }
}

fn clone_exprs(v: &Vec<ExpressionType>) -> (r: Vec<ExpressionType>)
    ensures
        exprs_model(r@) == exprs_model(v@),
        r@.len() == v@.len(),
    decreases v,
{
    let mut out: Vec<ExpressionType> = Vec::new();
    let mut i: usize = 0;
    while i < v.len()
        invariant
            i <= v.len(),
            out@.len() == i,
            forall|k: int| 0 <= k < i ==> out@[k].model() == v@[k].model(),
        decreases v.len() - i,
    {
        out.push(v[i].clone());
        i += 1;
    }
    assert(exprs_model(out@) =~= exprs_model(v@));
    out
}

fn clone_nodes(v: &Vec<Node>) -> (r: Vec<Node>)
    ensures
        nodes_model(r@) == nodes_model(v@),
        r@.len() == v@.len(),
    decreases v,
{
    let mut out: Vec<Node> = Vec::new();
    let mut i: usize = 0;
    while i < v.len()
        invariant
            i <= v.len(),
            out@.len() == i,
            forall|k: int| 0 <= k < i ==> out@[k].model() == v@[k].model(),
        decreases v.len() - i,
    {
        out.push(v[i].clone());
        i += 1;
    }
    assert(nodes_model(out@) =~= nodes_model(v@));
    out
}

fn clone_bindings(v: &Vec<(String, ExpressionType)>) -> (r: Vec<(String, ExpressionType)>)
    ensures
        bindings_model(r@) == bindings_model(v@),
        r@.len() == v@.len(),
    decreases v,
{
    let mut out: Vec<(String, ExpressionType)> = Vec::new();
    let mut i: usize = 0;
    while i < v.len()
        invariant
            i <= v.len(),
            out@.len() == i,
            forall|k: int| 0 <= k < i ==> out@[k].0@ == v@[k].0@ && out@[k].1.model() == v@[k].1.model(),
        decreases v.len() - i,
    {
        out.push((v[i].0.clone(), v[i].1.clone()));
        i += 1;
    }
    assert(bindings_model(out@) =~= bindings_model(v@));
    out
}

fn clone_toplevel(v: &Vec<(String, Node)>) -> (r: Vec<(String, Node)>)
    ensures
        toplevel_model(r@) == toplevel_model(v@),
        r@.len() == v@.len(),
    decreases v,
{
    let mut out: Vec<(String, Node)> = Vec::new();
    let mut i: usize = 0;
    while i < v.len()
        invariant
            i <= v.len(),
            out@.len() == i,
            forall|k: int| 0 <= k < i ==> out@[k].0@ == v@[k].0@ && out@[k].1.model() == v@[k].1.model(),
        decreases v.len() - i,
    {
        out.push((v[i].0.clone(), v[i].1.clone()));
        i += 1;
    }
    assert(toplevel_model(out@) =~= toplevel_model(v@));
    out
}

impl ExpressionType {
    /// A deep copy.
    pub fn clone(&self) -> (r: Self)
        ensures
            r.model() == self.model(),
        decreases self,
    {
        match self {
            ExpressionType::Int(i) => ExpressionType::Int(*i),
            ExpressionType::Float(f) => ExpressionType::Float(*f),
            ExpressionType::String(s) => ExpressionType::String(s.clone()),
            ExpressionType::Range(a, b) => ExpressionType::Range(*a, *b),
            ExpressionType::Block(b) => ExpressionType::Block(b.clone()),
            ExpressionType::Variable(s) => ExpressionType::Variable(s.clone()),
            ExpressionType::Duration(w) => ExpressionType::Duration(Box::new(WaitData::clone(w))),
            ExpressionType::Vector(v) => ExpressionType::Vector(clone_exprs(v)),
            ExpressionType::Expr(e) => ExpressionType::Expr(e.clone()),
            ExpressionType::Nothing => ExpressionType::Nothing,
        }
    }
}

impl ArithmeticExpression {
    /// A deep copy.
    pub fn clone(&self) -> (r: Self)
        ensures
            r.model() == self.model(),
        decreases self,
    {
        match self {
            ArithmeticExpression::Unary(UnaryOperator::Negate, e) => ArithmeticExpression::Unary(
                UnaryOperator::Negate,
                Box::new(ExpressionType::clone(e)),
            ),
            ArithmeticExpression::Unary(UnaryOperator::FunctionCall(f), e) => ArithmeticExpression::Unary(
                UnaryOperator::FunctionCall(f.clone()),
                Box::new(ExpressionType::clone(e)),
            ),
            ArithmeticExpression::Binary(op, l, r) => ArithmeticExpression::Binary(
                *op,
                Box::new(ExpressionType::clone(l)),
                Box::new(ExpressionType::clone(r)),
            ),
        }
    }
}

impl Values {
    /// The empty scope.
    pub fn new() -> (r: Self)
        ensures
            r.model() == Seq::<(Seq<char>, ExprModel)>::empty(),
    {
        let r = Values { entries: Vec::new() };
        assert(r.model() =~= Seq::<(Seq<char>, ExprModel)>::empty());
        r
    }

    /// A deep copy.
    pub fn clone(&self) -> (r: Self)
        ensures
            r.model() == self.model(),
        decreases self,
    {
        Values { entries: clone_bindings(&self.entries) }
    }

    /// The number of bindings, shadowed ones included.
    pub fn len(&self) -> (r: usize)
        ensures
            r == self.model().len(),
    {
        self.entries.len()
    }

    /// Binds `name` to `value`, shadowing any earlier binding of `name`.
    pub fn insert(&mut self, name: String, value: ExpressionType)
        ensures
            final(self).model() == old(self).model().push((name@, value.model())),
    {
        self.entries.push((name, value));
        assert(self.model() =~= old(self).model().push((name@, value.model())));
    }

    /// Lays the bindings of `other` over those of `self`.
    pub fn extend(&mut self, other: Values)
        ensures
            final(self).model() == old(self).model() + other.model(),
    {
        let mut other = other;
        let ghost upper = other.model();
        self.entries.append(&mut other.entries);
        assert(self.model() =~= old(self).model() + upper);
    }

    /// The place of the latest binding of `name`, if it has one.
    pub fn find(&self, name: &String) -> (r: Option<usize>)
        ensures
            match r {
                Some(i) => position(self.model(), name@) == i && i < self.entries@.len(),
                None => position(self.model(), name@) == -1,
            },
    {
        let mut i: usize = self.entries.len();
        assert(self.model().take(i as int) =~= self.model());
        while i > 0
            invariant
                i <= self.entries@.len(),
                position(self.model(), name@) == position(self.model().take(i as int), name@),
            decreases i,
        {
            let ghost prefix = self.model().take(i as int);
            assert(prefix.last() == self.model()[i - 1]);
            assert(prefix.drop_last() =~= self.model().take(i - 1));
            if self.entries[i - 1].0 == *name {
                return Some(i - 1);
            }
            i -= 1;
        }
        assert(self.model().take(0).len() == 0);
        None
    }

    /// The expression that `name` is bound to, if any.
    pub fn get(&self, name: &String) -> (r: Option<&ExpressionType>)
        ensures
            match r {
                Some(e) => lookup(self.model(), name@) == Some(e.model()),
                None => lookup(self.model(), name@).is_none(),
            },
    {
        match self.find(name) {
            Some(i) => Some(&self.entries[i].1),
            None => None,
        }
    }
}

impl Block {
    /// The block without definitions and statements.
    pub fn new() -> (r: Block)
        ensures
            r.model() == (BlockModel { definitions: Seq::empty(), statements: Seq::empty() }),
    {
        let r = Block { definitions: Values::new(), statements: Vec::new() };
        assert(r.model().statements =~= Seq::<NodeModel>::empty());
        r
    }

    /// A deep copy.
    pub fn clone(&self) -> (r: Self)
        ensures
            r.model() == self.model(),
        decreases self,
    {
        Block { definitions: self.definitions.clone(), statements: clone_nodes(&self.statements) }
    }
}

impl WaitData {
    /// A deep copy.
    pub fn clone(&self) -> (r: Self)
        ensures
            r.model() == self.model(),
        decreases self,
    {
        match self {
            WaitData::Frames(e) => WaitData::Frames(e.clone()),
            WaitData::Time(e) => WaitData::Time(e.clone()),
        }
    }
}

impl Condition {
    /// A deep copy.
    pub fn clone(&self) -> (r: Self)
        ensures
            r.model() == self.model(),
        decreases self,
    {
        match self {
            Condition::When(e) => Condition::When(e.clone()),
            Condition::Unless(e) => Condition::Unless(e.clone()),
            Condition::Always => Condition::Always,
        }
    }
}

impl ForData {
    /// A deep copy.
    pub fn clone(&self) -> (r: Self)
        ensures
            r.model() == self.model(),
        decreases self,
    {
        ForData {
            initial_definitions: self.initial_definitions.clone(),
            condition: self.condition.clone(),
            body: self.body.clone(),
        }
    }
}

impl Node {
    /// A deep copy.
    pub fn clone(&self) -> (r: Self)
        ensures
            r.model() == self.model(),
        decreases self,
    {
        match self {
            Node::Head(h) => Node::Head(HeadData { definitions: clone_toplevel(&h.definitions) }),
            Node::Pattern(p) => Node::Pattern(PatternData { block: p.block.clone() }),
            Node::Bullet(b) => Node::Bullet(BulletData { definitions: b.definitions.clone() }),
            Node::Path(p) => Node::Path(
                PathData { arguments: p.arguments.clone(), definitions: p.definitions.clone() },
            ),
            Node::Wait(w) => Node::Wait(w.clone()),
            Node::For(f) => Node::For(f.clone()),
            Node::Spawn(s) => Node::Spawn(SpawnData { definitions: s.definitions.clone() }),
        }
    }
}

/// A name with the node it defines.
pub struct NamedToplevel {
    pub name: String,
    pub node: Node,
}

/// How deep the parser follows the nesting of a source.
pub const MAX_DEPTH: usize = 1024;

/// A recursive-descent parser over the tokens of a lexer.
pub struct Parser {
    lexer: Lexer,
}

/// Mathematical model of a parse error.
pub enum ParseFault {
    Token(TokenModel),
    Expected(TokenModel, TokenModel),
    EOF,
    Definitions,
    InvalidNumber,
    InvalidForDef,
    RangeMustBeInt,
    BadVecElement,
    TimeTypeError,
    NeedsClearerError(Seq<char>),
    TooDeep,
}

impl ParseError {
    /// The mathematical model of this.
    pub open spec fn model(&self) -> ParseFault {
        match self {
            ParseError::Token(t) => ParseFault::Token(t.model()),
            ParseError::Expected(a, b) => ParseFault::Expected(a.model(), b.model()),
            ParseError::EOF => ParseFault::EOF,
            ParseError::Definitions => ParseFault::Definitions,
            ParseError::InvalidNumber => ParseFault::InvalidNumber,
            ParseError::InvalidForDef => ParseFault::InvalidForDef,
            ParseError::RangeMustBeInt => ParseFault::RangeMustBeInt,
            ParseError::BadVecElement => ParseFault::BadVecElement,
            ParseError::TimeTypeError => ParseFault::TimeTypeError,
            ParseError::NeedsClearerError(s) => ParseFault::NeedsClearerError(s@),
            ParseError::TooDeep => ParseFault::TooDeep,
        }
    }
}

/// An expression without the bits of its floating-point literals, which
/// the `FloatUnit` makes of their numerals.
pub open spec fn plain_expr(e: ExprModel) -> ExprModel
    decreases e,
{
    match e {
        ExprModel::Float(_) => ExprModel::Float(0),
        ExprModel::Block(b) => ExprModel::Block(plain_block(b)),
        ExprModel::Duration(w) => ExprModel::Duration(Box::new(plain_wait(*w))),
        ExprModel::Vector(es) => ExprModel::Vector(plain_exprs(es)),
        ExprModel::Negate(a) => ExprModel::Negate(Box::new(plain_expr(*a))),
        ExprModel::Call(name, a) => ExprModel::Call(name, Box::new(plain_expr(*a))),
        ExprModel::Binary(op, l, r) => ExprModel::Binary(
            op,
            Box::new(plain_expr(*l)),
            Box::new(plain_expr(*r)),
        ),
        _ => e,
    }
}

/// Expressions without the bits of their floating-point literals.
pub open spec fn plain_exprs(es: Seq<ExprModel>) -> Seq<ExprModel>
    decreases es,
{
    Seq::new(es.len(), |i: int| if 0 <= i < es.len() { plain_expr(es[i]) } else { ExprModel::Nothing })
}

/// A scope without the bits of its floating-point literals.
pub open spec fn plain_scope(s: ScopeModel) -> ScopeModel
    decreases s,
{
    Seq::new(
        s.len(),
        |i: int| if 0 <= i < s.len() { (s[i].0, plain_expr(s[i].1)) } else { (Seq::empty(), ExprModel::Nothing) },
    )
}

/// Nodes without the bits of their floating-point literals.
pub open spec fn plain_nodes(ns: Seq<NodeModel>) -> Seq<NodeModel>
    decreases ns,
{
    Seq::new(
        ns.len(),
        |i: int| if 0 <= i < ns.len() { plain_node(ns[i]) } else { NodeModel::Spawn(Seq::empty()) },
    )
}

/// Named nodes without the bits of their floating-point literals.
pub open spec fn plain_toplevel(ns: Seq<(Seq<char>, NodeModel)>) -> Seq<(Seq<char>, NodeModel)>
    decreases ns,
{
    Seq::new(
        ns.len(),
        |i: int| if 0 <= i < ns.len() { (ns[i].0, plain_node(ns[i].1)) } else { (Seq::empty(), NodeModel::Spawn(Seq::empty())) },
    )
}

/// A block without the bits of its floating-point literals.
pub open spec fn plain_block(b: BlockModel) -> BlockModel
    decreases b,
{
    BlockModel { definitions: plain_scope(b.definitions), statements: plain_nodes(b.statements) }
}

/// A duration without the bits of its floating-point literals.
pub open spec fn plain_wait(w: WaitModel) -> WaitModel
    decreases w,
{
    match w {
        WaitModel::Frames(e) => WaitModel::Frames(plain_expr(e)),
        WaitModel::Time(e) => WaitModel::Time(plain_expr(e)),
    }
}

/// A guard without the bits of its floating-point literals.
pub open spec fn plain_cond(c: CondModel) -> CondModel
    decreases c,
{
    match c {
        CondModel::When(e) => CondModel::When(plain_expr(e)),
        CondModel::Unless(e) => CondModel::Unless(plain_expr(e)),
        CondModel::Always => CondModel::Always,
    }
}

/// A loop without the bits of its floating-point literals.
pub open spec fn plain_for(f: ForModel) -> ForModel
    decreases f,
{
    ForModel {
        initial_definitions: plain_scope(f.initial_definitions),
        condition: plain_cond(f.condition),
        body: plain_block(f.body),
    }
}

/// A node without the bits of its floating-point literals.
pub open spec fn plain_node(n: NodeModel) -> NodeModel
    decreases n,
{
    match n {
        NodeModel::Head(defs) => NodeModel::Head(plain_toplevel(defs)),
        NodeModel::Pattern(b) => NodeModel::Pattern(plain_block(b)),
        NodeModel::Bullet(s) => NodeModel::Bullet(plain_scope(s)),
        NodeModel::Path(a, s) => NodeModel::Path(plain_expr(a), plain_scope(s)),
        NodeModel::Wait(w) => NodeModel::Wait(plain_wait(w)),
        NodeModel::For(f) => NodeModel::For(plain_for(f)),
        NodeModel::Spawn(s) => NodeModel::Spawn(plain_scope(s)),
    }
}

/// The number that a numeral of decimal digits stands for.
pub open spec fn decimal(text: Seq<char>) -> int
    decreases text.len(),
{
    if text.len() == 0 {
        0
    } else {
        decimal(text.drop_last()) * 10 + (text.last() as int - '0' as int)
    }
}

/// Whether `text` holds decimal digits only.
pub open spec fn all_digits(text: Seq<char>) -> bool {
    forall|i: int| 0 <= i < text.len() ==> digit(#[trigger] text[i])
}

/// The integer that a numeral of decimal digits stands for, where it is a
/// 64-bit integer.
pub open spec fn int_spec(text: Seq<char>) -> Option<i64> {
    if text.len() > 0 && all_digits(text) && decimal(text) <= i64::MAX {
        Some(decimal(text) as i64)
    } else {
        None
    }
}

proof fn lemma_decimal_grows(text: Seq<char>, k: int)
    requires
        0 <= k <= text.len(),
        all_digits(text),
    ensures
        0 <= decimal(text.take(k)) <= decimal(text),
    decreases text.len() - k,
{
    if k == text.len() {
        assert(text.take(k) =~= text);
        lemma_decimal_nonnegative(text);
    } else {
        lemma_decimal_grows(text, k + 1);
        assert(text.take(k + 1).drop_last() =~= text.take(k));
        assert(digit(text[k]));
        lemma_decimal_nonnegative(text.take(k));
    }
}

proof fn lemma_decimal_nonnegative(text: Seq<char>)
    requires
        all_digits(text),
    ensures
        decimal(text) >= 0,
    decreases text.len(),
{
    if text.len() > 0 {
        assert(digit(text[text.len() - 1]));
        lemma_decimal_nonnegative(text.drop_last());
    }
}

/// The integer that a numeral of decimal digits stands for, where it is a
/// 64-bit integer.
fn parse_int(text: &str) -> (r: Option<i64>)
    ensures
        r == int_spec(text@),
{
    let n = text.unicode_len();
    if n == 0 {
        return None;
    }
    let mut value: i64 = 0;
    let mut i: usize = 0;
    assert(text@.take(0) =~= Seq::<char>::empty());
    while i < n
        invariant
            i <= n,
            n == text@.len(),
            all_digits(text@.take(i as int)),
            value == decimal(text@.take(i as int)),
        decreases n - i,
    {
        let c = text.get_char(i);
        if !('0' <= c && c <= '9') {
            assert(!digit(text@[i as int]));
            return None;
        }
        let ghost next = text@.take(i + 1);
        assert(next.drop_last() =~= text@.take(i as int));
        assert(next.last() == c);
        assert(all_digits(next)) by {
            assert forall|k: int| 0 <= k < next.len() implies digit(#[trigger] next[k]) by {
                if k < i {
                    assert(text@.take(i as int)[k] == next[k]);
                }
            }
        }
        proof {
            if all_digits(text@) {
                lemma_decimal_grows(text@, i + 1);
            }
            lemma_decimal_nonnegative(text@.take(i as int));
        }
        let d: i64 = (c as u32 - '0' as u32) as i64;
        value = match value.checked_mul(10) {
            Some(v) => match v.checked_add(d) {
                Some(w) => w,
                None => {
                    return None;
                },
            },
            None => {
                return None;
            },
        };
        i += 1;
    }
    assert(text@.take(n as int) =~= text@);
    Some(value)
}

/// Whether a numeral holds a point.
fn has_point(text: &str) -> (r: bool)
    ensures
        r == text@.contains('.'),
{
    let n = text.unicode_len();
    let mut i: usize = 0;
    while i < n
        invariant
            i <= n,
            n == text@.len(),
            forall|k: int| 0 <= k < i ==> text@[k] != '.',
        decreases n - i,
    {
        if text.get_char(i) == '.' {
            return true;
        }
        i += 1;
    }
    false
}

/// Whether a duration is well formed: a whole number of frames, or a number
/// of seconds.
pub open spec fn well_formed_duration(w: WaitData) -> bool {
    match w {
        WaitData::Frames(e) => e is Int,
        WaitData::Time(e) => e is Int || e is Float,
    }
}

/// How tightly a binary operator binds: `or` least, then `and`, the
/// comparisons, `+` and `-`, `*` and `/`, and `^` most.
pub open spec fn precedence_spec(op: Op) -> u32 {
    match op {
        Op::Or => 0,
        Op::And => 1,
        Op::Test | Op::GT | Op::LT | Op::GTE | Op::LTE => 2,
        Op::Add | Op::Sub => 3,
        Op::Div | Op::Mul => 5,
        Op::Exp => 6,
    }
}

/// How many characters of the source `c` are left behind `p`.
pub open spec fn left(c: Seq<char>, p: nat) -> nat {
    if p <= c.len() {
        (c.len() - p) as nat
    } else {
        0
    }
}

/// Where the parser stands once it has read the next token at `p`, which
/// must be `expected`.
pub open spec fn expect_spec(c: Seq<char>, p: nat, expected: TokenModel) -> Result<nat, ParseFault> {
    if token_spec(c, p).0 == expected {
        Ok(token_spec(c, p).1)
    } else {
        Err(ParseFault::Expected(expected, token_spec(c, p).0))
    }
}

/// The head node of the source `c` from `p` on, when the definitions
/// before `p` are `defs`: definitions of patterns, paths and bullets up to
/// the end of the source.
pub open spec fn head_spec(c: Seq<char>, p: nat, defs: Seq<(Seq<char>, NodeModel)>) -> Result<
    NodeModel,
    ParseFault,
>
    decreases left(c, p),
{
    let q1 = token_spec(c, p).1;
    let named = match token_spec(c, p).0 {
        TokenModel::Keyword(Keyword::Pattern) => Some(pattern_spec(c, q1, MAX_DEPTH as nat)),
        TokenModel::Keyword(Keyword::Path) => Some(path_spec(c, q1, MAX_DEPTH as nat)),
        TokenModel::Keyword(Keyword::Bullet) => Some(bullet_spec(c, q1, MAX_DEPTH as nat)),
        _ => None,
    };
    match token_spec(c, p).0 {
        TokenModel::EOF => Ok(NodeModel::Head(defs)),
        other => match named {
            Some(Ok((d, q2))) => if p < q2 <= c.len() {
                head_spec(c, q2, defs.push(d))
            } else {
                Err(ParseFault::EOF)
            },
            Some(Err(e)) => Err(e),
            None => Err(ParseFault::Token(other)),
        },
    }
}

/// `name = { .. }` behind the keyword `pattern`.
pub open spec fn pattern_spec(c: Seq<char>, p: nat, depth: nat) -> Result<
    ((Seq<char>, NodeModel), nat),
    ParseFault,
>
    decreases depth, c.len() + 1,
{
    if depth == 0 {
        Err(ParseFault::TooDeep)
    } else {
        match token_spec(c, p).0 {
            TokenModel::Id(name) => match expect_spec(c, token_spec(c, p).1, TokenModel::Assign) {
                Ok(q2) => match block_spec(c, q2, (depth - 1) as nat) {
                    Ok((b, q3)) => Ok(((name, NodeModel::Pattern(b)), q3)),
                    Err(e) => Err(e),
                },
                Err(e) => Err(e),
            },
            other => Err(ParseFault::Expected(TokenModel::String("Id"@), other)),
        }
    }
}

/// `name = { .. }` behind the keyword `bullet`.
pub open spec fn bullet_spec(c: Seq<char>, p: nat, depth: nat) -> Result<
    ((Seq<char>, NodeModel), nat),
    ParseFault,
>
    decreases depth, c.len() + 1,
{
    if depth == 0 {
        Err(ParseFault::TooDeep)
    } else {
        match token_spec(c, p).0 {
            TokenModel::Id(name) => match expect_spec(c, token_spec(c, p).1, TokenModel::Assign) {
                Ok(q2) => match values_spec(c, q2, (depth - 1) as nat) {
                    Ok((s, q3)) => Ok(((name, NodeModel::Bullet(s)), q3)),
                    Err(e) => Err(e),
                },
                Err(e) => Err(e),
            },
            other => Err(ParseFault::Expected(TokenModel::String("Id"@), other)),
        }
    }
}

/// `name(arguments) = { .. }` behind the keyword `path`.
pub open spec fn path_spec(c: Seq<char>, p: nat, depth: nat) -> Result<
    ((Seq<char>, NodeModel), nat),
    ParseFault,
>
    decreases depth, c.len() + 1,
{
    if depth == 0 {
        Err(ParseFault::TooDeep)
    } else {
        match token_spec(c, p).0 {
            TokenModel::Id(name) => match expression_spec(c, token_spec(c, p).1, (depth - 1) as nat) {
                Ok((arguments, q2)) => match expect_spec(c, q2, TokenModel::Assign) {
                    Ok(q3) => match values_spec(c, q3, (depth - 1) as nat) {
                        Ok((s, q4)) => Ok(((name, NodeModel::Path(arguments, s)), q4)),
                        Err(e) => Err(e),
                    },
                    Err(e) => Err(e),
                },
                Err(e) => Err(e),
            },
            other => Err(ParseFault::Expected(TokenModel::String("Id"@), other)),
        }
    }
}

/// A block: definitions and statements between braces.
pub open spec fn block_spec(c: Seq<char>, p: nat, depth: nat) -> Result<(BlockModel, nat), ParseFault>
    decreases depth, c.len() + 1,
{
    if depth == 0 {
        Err(ParseFault::TooDeep)
    } else {
        match expect_spec(c, p, TokenModel::OpenBlock) {
            Ok(q1) => block_rest(c, q1, depth, Seq::empty(), Seq::empty()),
            Err(e) => Err(e),
        }
    }
}

/// The rest of a block from `p` on, when what stands before `p` has given
/// the definitions `defs` and the statements `stmts`.
pub open spec fn block_rest(
    c: Seq<char>,
    p: nat,
    depth: nat,
    defs: ScopeModel,
    stmts: Seq<NodeModel>,
) -> Result<(BlockModel, nat), ParseFault>
    decreases depth, left(c, p),
{
    let q1 = token_spec(c, p).1;
    if depth == 0 {
        Err(ParseFault::TooDeep)
    } else {
        match token_spec(c, p).0 {
            TokenModel::CloseBlock => Ok((BlockModel { definitions: defs, statements: stmts }, q1)),
            TokenModel::Id(id) => match expect_spec(c, q1, TokenModel::Assign) {
                Ok(q2) => match expression_spec(c, q2, (depth - 1) as nat) {
                    Ok((e, q3)) => if p < q3 <= c.len() {
                        block_rest(c, q3, depth, defs.push((id, e)), stmts)
                    } else {
                        Err(ParseFault::EOF)
                    },
                    Err(e) => Err(e),
                },
                Err(e) => Err(e),
            },
            TokenModel::Keyword(Keyword::For) => match for_spec(c, q1, (depth - 1) as nat) {
                Ok((f, q2)) => if p < q2 <= c.len() {
                    block_rest(c, q2, depth, defs, stmts.push(NodeModel::For(f)))
                } else {
                    Err(ParseFault::EOF)
                },
                Err(e) => Err(e),
            },
            TokenModel::Keyword(Keyword::Wait) => match wait_spec(c, q1, (depth - 1) as nat) {
                Ok((w, q2)) => if p < q2 <= c.len() {
                    block_rest(c, q2, depth, defs, stmts.push(NodeModel::Wait(w)))
                } else {
                    Err(ParseFault::EOF)
                },
                Err(e) => Err(e),
            },
            TokenModel::Keyword(Keyword::Spawn) => match spawn_spec(c, q1, (depth - 1) as nat) {
                Ok((s, q2)) => if p < q2 <= c.len() {
                    block_rest(c, q2, depth, defs, stmts.push(NodeModel::Spawn(s)))
                } else {
                    Err(ParseFault::EOF)
                },
                Err(e) => Err(e),
            },
            other => Err(ParseFault::Token(other)),
        }
    }
}

/// A block that holds definitions only.
pub open spec fn values_spec(c: Seq<char>, p: nat, depth: nat) -> Result<(ScopeModel, nat), ParseFault>
    decreases depth, c.len() + 1,
{
    if depth == 0 {
        Err(ParseFault::TooDeep)
    } else {
        match expect_spec(c, p, TokenModel::OpenBlock) {
            Ok(q1) => values_rest(c, q1, depth, Seq::empty()),
            Err(e) => Err(e),
        }
    }
}

/// The rest of a block of definitions from `p` on.
pub open spec fn values_rest(c: Seq<char>, p: nat, depth: nat, defs: ScopeModel) -> Result<
    (ScopeModel, nat),
    ParseFault,
>
    decreases depth, left(c, p),
{
    let q1 = token_spec(c, p).1;
    if depth == 0 {
        Err(ParseFault::TooDeep)
    } else {
        match token_spec(c, p).0 {
            TokenModel::CloseBlock => Ok((defs, q1)),
            TokenModel::Id(id) => match expect_spec(c, q1, TokenModel::Assign) {
                Ok(q2) => match expression_spec(c, q2, (depth - 1) as nat) {
                    Ok((e, q3)) => if p < q3 <= c.len() {
                        values_rest(c, q3, depth, defs.push((id, e)))
                    } else {
                        Err(ParseFault::EOF)
                    },
                    Err(e) => Err(e),
                },
                Err(e) => Err(e),
            },
            _ => Err(ParseFault::Definitions),
        }
    }
}

/// An expression that is no duration, or else the error of a unit in the
/// wrong place.
pub open spec fn no_duration(e: ExprModel, p: nat) -> Result<(ExprModel, nat), ParseFault> {
    if e is Duration {
        Err(ParseFault::TimeTypeError)
    } else {
        Ok((e, p))
    }
}

/// An expression with what ends it: a semicolon, or `seconds;` or
/// `frames;`, which make a duration of a number; a closing brace or
/// bracket, a comma or an equals sign is left unread.
pub open spec fn expression_spec(c: Seq<char>, p: nat, depth: nat) -> Result<
    (ExprModel, nat),
    ParseFault,
>
    decreases depth, c.len() + 1,
{
    if depth == 0 {
        Err(ParseFault::TooDeep)
    } else {
        match expression_r_spec(c, p, (depth - 1) as nat) {
            Err(e) => Err(e),
            Ok((expr, q1)) => {
                let q2 = token_spec(c, q1).1;
                match token_spec(c, q1).0 {
                    TokenModel::Keyword(Keyword::Seconds) => match expect_spec(c, q2, TokenModel::Semicolon) {
                        Ok(q3) => if expr is Int || expr is Float {
                            Ok((ExprModel::Duration(Box::new(WaitModel::Time(expr))), q3))
                        } else {
                            Err(ParseFault::TimeTypeError)
                        },
                        Err(e) => Err(e),
                    },
                    TokenModel::Keyword(Keyword::Frames) => match expect_spec(c, q2, TokenModel::Semicolon) {
                        Ok(q3) => if expr is Int {
                            Ok((ExprModel::Duration(Box::new(WaitModel::Frames(expr))), q3))
                        } else {
                            Err(ParseFault::TimeTypeError)
                        },
                        Err(e) => Err(e),
                    },
                    TokenModel::Semicolon => no_duration(expr, q2),
                    TokenModel::CloseBlock | TokenModel::Assign | TokenModel::CloseParen
                    | TokenModel::Comma => no_duration(expr, q1),
                    _ => Err(ParseFault::NeedsClearerError("Expressions should end in } or ;."@)),
                }
            },
        }
    }
}

/// An expression without what ends it: a block, a string, or operators and
/// values.
pub open spec fn expression_r_spec(c: Seq<char>, p: nat, depth: nat) -> Result<
    (ExprModel, nat),
    ParseFault,
>
    decreases depth, c.len() + 1,
{
    if depth == 0 {
        Err(ParseFault::TooDeep)
    } else {
        match token_spec(c, p).0 {
            TokenModel::OpenBlock => match block_spec(c, p, (depth - 1) as nat) {
                Ok((b, q1)) => Ok((ExprModel::Block(b), q1)),
                Err(e) => Err(e),
            },
            TokenModel::String(s) => Ok((ExprModel::Str(s), token_spec(c, p).1)),
            _ => expression_p_spec(c, p, 0, (depth - 1) as nat),
        }
    }
}

/// Operators and values, with the operators that bind at least as tightly
/// as `precedence`.
pub open spec fn expression_p_spec(c: Seq<char>, p: nat, precedence: u32, depth: nat) -> Result<
    (ExprModel, nat),
    ParseFault,
>
    decreases depth, c.len() + 1,
{
    if depth == 0 {
        Err(ParseFault::TooDeep)
    } else {
        match operand_spec(c, p, (depth - 1) as nat) {
            Ok((tree, q1)) => operators_rest(c, q1, precedence, depth, tree),
            Err(e) => Err(e),
        }
    }
}

/// The operators from `p` on that bind at least as tightly as
/// `precedence`, each with its right operand, applied to `tree` on the
/// left.
pub open spec fn operators_rest(c: Seq<char>, p: nat, precedence: u32, depth: nat, tree: ExprModel) -> Result<
    (ExprModel, nat),
    ParseFault,
>
    decreases depth, left(c, p),
{
    if depth == 0 {
        Err(ParseFault::TooDeep)
    } else {
        match token_spec(c, p).0 {
            TokenModel::Operator(op) => {
                let binds = precedence_spec(op);
                if binds < precedence {
                    Ok((tree, p))
                } else {
                    let inner = if op == Op::Exp {
                        (binds + 1) as u32
                    } else {
                        binds
                    };
                    match expression_p_spec(c, token_spec(c, p).1, inner, (depth - 1) as nat) {
                        Ok((rhs, q2)) => if p < q2 <= c.len() {
                            operators_rest(
                                c,
                                q2,
                                precedence,
                                depth,
                                ExprModel::Binary(op, Box::new(tree), Box::new(rhs)),
                            )
                        } else {
                            Err(ParseFault::EOF)
                        },
                        Err(e) => Err(e),
                    }
                }
            },
            _ => Ok((tree, p)),
        }
    }
}

/// Whether the bracket that is the next token at `p` opens a vector:
/// whether a comma stands in it outside any inner bracket. The tokens are
/// looked at from token `n` ahead on, `nested` brackets deep.
pub open spec fn opens_vector_spec(c: Seq<char>, p: nat, n: u32, nested: u32, found: bool) -> Result<
    bool,
    ParseFault,
>
    decreases u32::MAX - n,
{
    let t = peek(c, p, n as nat);
    if t is CloseParen && nested <= 1 {
        Ok(found)
    } else if t is EOF {
        Err(ParseFault::EOF)
    } else if n >= u32::MAX {
        Err(ParseFault::TooDeep)
    } else {
        opens_vector_spec(
            c,
            p,
            (n + 1) as u32,
            if t is OpenParen {
                (nested + 1) as u32
            } else if t is CloseParen {
                (nested - 1) as u32
            } else {
                nested
            },
            found || (t is Comma && nested == 1),
        )
    }
}

/// A value with what stands before it: a negation, a bracketed
/// expression, a vector, a number, a variable or a function call.
pub open spec fn operand_spec(c: Seq<char>, p: nat, depth: nat) -> Result<(ExprModel, nat), ParseFault>
    decreases depth, c.len() + 1,
{
    let q1 = token_spec(c, p).1;
    if depth == 0 {
        Err(ParseFault::TooDeep)
    } else {
        match token_spec(c, p).0 {
            TokenModel::Operator(Op::Sub) => match expression_p_spec(c, q1, 4, (depth - 1) as nat) {
                Ok((e, q2)) => Ok((ExprModel::Negate(Box::new(e)), q2)),
                Err(e) => Err(e),
            },
            TokenModel::OpenParen => match opens_vector_spec(c, p, 1, 0, false) {
                Err(e) => Err(e),
                Ok(true) => vector_rest(c, q1, depth, Seq::empty()),
                Ok(false) => match expression_r_spec(c, q1, (depth - 1) as nat) {
                    Ok((e, q2)) => match expect_spec(c, q2, TokenModel::CloseParen) {
                        Ok(q3) => Ok((e, q3)),
                        Err(e) => Err(e),
                    },
                    Err(e) => Err(e),
                },
            },
            TokenModel::Number(_) => number_spec(c, p),
            TokenModel::Id(id) => match peek(c, p, 2) {
                TokenModel::OpenParen => match peek(c, q1, 2) {
                    TokenModel::CloseParen => Ok(
                        (
                            ExprModel::Call(id, Box::new(ExprModel::Nothing)),
                            token_spec(c, token_spec(c, q1).1).1,
                        ),
                    ),
                    _ => match expression_r_spec(c, q1, (depth - 1) as nat) {
                        Ok((e, q2)) => Ok((ExprModel::Call(id, Box::new(e)), q2)),
                        Err(e) => Err(e),
                    },
                },
                _ => Ok((ExprModel::Variable(id), q1)),
            },
            _ => Err(
                ParseFault::NeedsClearerError("Expected value within operator parsing, got token"@),
            ),
        }
    }
}

/// The rest of a vector from `p` on, when the elements before `p` are
/// `elements`.
pub open spec fn vector_rest(c: Seq<char>, p: nat, depth: nat, elements: Seq<ExprModel>) -> Result<
    (ExprModel, nat),
    ParseFault,
>
    decreases depth, left(c, p),
{
    if depth == 0 {
        Err(ParseFault::TooDeep)
    } else {
        match expression_r_spec(c, p, (depth - 1) as nat) {
            Ok((e, q1)) => match token_spec(c, q1).0 {
                TokenModel::Comma => if p < token_spec(c, q1).1 <= c.len() {
                    vector_rest(c, token_spec(c, q1).1, depth, elements.push(e))
                } else {
                    Err(ParseFault::EOF)
                },
                TokenModel::CloseParen => Ok((ExprModel::Vector(elements.push(e)), token_spec(c, q1).1)),
                _ => Err(ParseFault::BadVecElement),
            },
            Err(e) => Err(e),
        }
    }
}

/// A loop behind the keyword `for`: its variables with their ranges in
/// brackets, a guard if there is one, and its body.
pub open spec fn for_spec(c: Seq<char>, p: nat, depth: nat) -> Result<(ForModel, nat), ParseFault>
    decreases depth, c.len() + 1,
{
    if depth == 0 {
        Err(ParseFault::TooDeep)
    } else {
        match expect_spec(c, p, TokenModel::OpenParen) {
            Err(e) => Err(e),
            Ok(q1) => match variables_spec(c, q1, Seq::empty()) {
                Err(e) => Err(e),
                Ok((vars, q2)) => match guard_spec(c, q2, depth) {
                    Err(e) => Err(e),
                    Ok((condition, q3)) => match block_spec(c, q3, (depth - 1) as nat) {
                        Ok((body, q4)) => Ok(
                            (ForModel { initial_definitions: vars, condition, body }, q4),
                        ),
                        Err(e) => Err(e),
                    },
                },
            },
        }
    }
}

/// The guard of a loop, where there is one before its body.
pub open spec fn guard_spec(c: Seq<char>, p: nat, depth: nat) -> Result<(CondModel, nat), ParseFault>
    decreases depth, c.len(),
{
    let t = token_spec(c, p).0;
    if t is OpenBlock {
        Ok((CondModel::Always, p))
    } else if depth == 0 {
        Err(ParseFault::TooDeep)
    } else {
        match expect_spec(c, token_spec(c, p).1, TokenModel::OpenParen) {
            Err(e) => Err(e),
            Ok(q2) => match expression_spec(c, q2, (depth - 1) as nat) {
                Err(e) => Err(e),
                Ok((e, q3)) => match t {
                    TokenModel::Condition(kind) => match expect_spec(c, q3, TokenModel::CloseParen) {
                        Ok(q4) => Ok(
                            (
                                if kind == ConditionToken::When {
                                    CondModel::When(e)
                                } else {
                                    CondModel::Unless(e)
                                },
                                q4,
                            ),
                        ),
                        Err(e) => Err(e),
                    },
                    other => Err(ParseFault::Token(other)),
                },
            },
        }
    }
}

/// The variables of a loop from `p` on, each with its range, up to the
/// closing bracket.
pub open spec fn variables_spec(c: Seq<char>, p: nat, vars: ScopeModel) -> Result<
    (ScopeModel, nat),
    ParseFault,
>
    decreases left(c, p),
{
    let q1 = token_spec(c, p).1;
    match token_spec(c, p).0 {
        TokenModel::CloseParen => Ok((vars, q1)),
        TokenModel::Id(id) => match expect_spec(c, q1, TokenModel::Assign) {
            Ok(q2) => match range_spec(c, q2) {
                Ok((r, q3)) => if p < q3 <= c.len() {
                    variables_spec(c, q3, vars.push((id, r)))
                } else {
                    Err(ParseFault::EOF)
                },
                Err(e) => Err(e),
            },
            Err(e) => Err(e),
        },
        TokenModel::Comma => if p < q1 <= c.len() {
            variables_spec(c, q1, vars)
        } else {
            Err(ParseFault::EOF)
        },
        _ => Err(ParseFault::InvalidForDef),
    }
}

/// A number: an integer, or with a point a floating-point number.
pub open spec fn number_spec(c: Seq<char>, p: nat) -> Result<(ExprModel, nat), ParseFault> {
    match token_spec(c, p).0 {
        TokenModel::Number(text) => if text.contains('.') {
            Ok((ExprModel::Float(0), token_spec(c, p).1))
        } else {
            match int_spec(text) {
                Some(i) => Ok((ExprModel::Int(i), token_spec(c, p).1)),
                None => Err(ParseFault::InvalidNumber),
            }
        },
        _ => Err(ParseFault::InvalidNumber),
    }
}

/// A range `a...b` of two integers.
pub open spec fn range_spec(c: Seq<char>, p: nat) -> Result<(ExprModel, nat), ParseFault> {
    match number_spec(c, p) {
        Err(e) => Err(e),
        Ok((start, q1)) => match expect_spec(c, q1, TokenModel::RangeSeparator) {
            Err(e) => Err(e),
            Ok(q2) => match number_spec(c, q2) {
                Err(e) => Err(e),
                Ok((end, q3)) => match (start, end) {
                    (ExprModel::Int(a), ExprModel::Int(b)) => Ok((ExprModel::Range(a, b), q3)),
                    _ => Err(ParseFault::RangeMustBeInt),
                },
            },
        },
    }
}

/// The duration behind the keyword `wait`.
pub open spec fn wait_spec(c: Seq<char>, p: nat, depth: nat) -> Result<(WaitModel, nat), ParseFault>
    decreases depth, c.len() + 1,
{
    if depth == 0 {
        Err(ParseFault::TooDeep)
    } else {
        match expression_spec(c, p, (depth - 1) as nat) {
            Ok((ExprModel::Duration(w), q1)) => Ok((*w, q1)),
            Ok(_) => Err(ParseFault::NeedsClearerError("Found invalid time expression"@)),
            Err(e) => Err(e),
        }
    }
}

/// The fields behind the keyword `spawn`.
pub open spec fn spawn_spec(c: Seq<char>, p: nat, depth: nat) -> Result<(ScopeModel, nat), ParseFault>
    decreases depth, c.len() + 1,
{
    if depth == 0 {
        Err(ParseFault::TooDeep)
    } else {
        match block_spec(c, p, (depth - 1) as nat) {
            Ok((b, q1)) => Ok((b.definitions, q1)),
            Err(e) => Err(e),
        }
    }
}

/// Whether the expression `r`, read up to `pos`, is what `s` says, but for
/// the bits of floating-point literals.
pub open spec fn expr_parsed(
    s: Result<(ExprModel, nat), ParseFault>,
    r: Result<ExpressionType, ParseError>,
    pos: nat,
) -> bool {
    match s {
        Ok((m, p)) => r matches Ok(x) && plain_expr(x.model()) == m && pos == p,
        Err(f) => r matches Err(e) && e.model() == f,
    }
}

/// Whether the block `r`, read up to `pos`, is what `s` says, but for the
/// bits of floating-point literals.
pub open spec fn block_parsed(
    s: Result<(BlockModel, nat), ParseFault>,
    r: Result<Block, ParseError>,
    pos: nat,
) -> bool {
    match s {
        Ok((m, p)) => r matches Ok(x) && plain_block(x.model()) == m && pos == p,
        Err(f) => r matches Err(e) && e.model() == f,
    }
}

/// Whether the definitions `r`, read up to `pos`, are what `s` says, but
/// for the bits of floating-point literals.
pub open spec fn values_parsed(
    s: Result<(ScopeModel, nat), ParseFault>,
    r: Result<Values, ParseError>,
    pos: nat,
) -> bool {
    match s {
        Ok((m, p)) => r matches Ok(x) && plain_scope(x.model()) == m && pos == p,
        Err(f) => r matches Err(e) && e.model() == f,
    }
}

/// Whether the definition `r`, read up to `pos`, is what `s` says, but for
/// the bits of floating-point literals.
pub open spec fn named_parsed(
    s: Result<((Seq<char>, NodeModel), nat), ParseFault>,
    r: Result<NamedToplevel, ParseError>,
    pos: nat,
) -> bool {
    match s {
        Ok((m, p)) => r matches Ok(x) && x.name@ == m.0 && plain_node(x.node.model()) == m.1 && pos
            == p,
        Err(f) => r matches Err(e) && e.model() == f,
    }
}

/// Whether the head node `r` is what `s` says, but for the bits of
/// floating-point literals.
pub open spec fn head_parsed(s: Result<NodeModel, ParseFault>, r: Result<Node, ParseError>) -> bool {
    match s {
        Ok(m) => r matches Ok(x) && plain_node(x.model()) == m,
        Err(f) => r matches Err(e) && e.model() == f,
    }
}

impl Parser {
    /// The characters of the source.
    pub closed spec fn chars(&self) -> Seq<char> {
        self.lexer.chars()
    }

    /// How many characters have been read.
    pub closed spec fn position(&self) -> nat {
        self.lexer.position()
    }

    /// Whether the parser stands within its source.
    pub closed spec fn wf(&self) -> bool {
        self.lexer.wf()
    }

    /// Whether the parser has gone from `before` to `self` by reading on in
    /// the same source.
    pub open spec fn follows(&self, before: &Parser) -> bool {
        &&& self.wf()
        &&& self.chars() == before.chars()
        &&& before.position() <= self.position() <= self.chars().len()
    }

    /// Parses a source into its head node.
    pub fn parse_from_string<U: FloatUnit>(source: String, unit: &U) -> (r: Result<Node, ParseError>)
        ensures
            head_parsed(head_spec(source@, 0, Seq::empty()), r),
    {
        let mut parser = Parser::new(Lexer::new(source));
        parser.evaluate(unit)
    }

    /// A parser on the tokens of `lexer`.
    pub fn new(lexer: Lexer) -> (r: Parser)
        requires
            lexer.wf(),
        ensures
            r.wf(),
            r.chars() == lexer.chars(),
            r.position() == lexer.position(),
    {
        Parser { lexer }
    }

    /// Reads the next token.
    pub fn next_token(&mut self) -> (r: Result<Token, ParseError>)
        requires
            old(self).wf(),
        ensures
            final(self).follows(old(self)),
            r matches Ok(t) && (!t.is_end() ==> old(self).position() < final(self).position()),
            r matches Ok(t) && (t.model(), final(self).position()) == token_spec(
                old(self).chars(),
                old(self).position(),
            ),
    {
        proof {
            self.lexer.lemma_within();
            lemma_token_spec(self.chars(), self.position());
        }
        match self.lexer.next_token() {
            Some(t) => Ok(t),
            None => Err(ParseError::EOF),
        }
    }

    /// The token `n` tokens ahead, without reading it.
    pub fn lookahead(&mut self, n: u32) -> (r: Result<Token, ParseError>)
        requires
            old(self).wf(),
        ensures
            final(self).follows(old(self)),
            final(self).position() == old(self).position(),
            r matches Ok(t) && t.model() == peek(old(self).chars(), old(self).position(), n as nat),
    {
        proof {
            self.lexer.lemma_within();
        }
        match self.lexer.lookahead(n) {
            Some(t) => Ok(t),
            None => Err(ParseError::EOF),
        }
    }

    /// Reads the next token, which must be `expected`.
    pub fn expect_next(&mut self, expected: Token) -> (r: Result<Token, ParseError>)
        requires
            old(self).wf(),
        ensures
            final(self).follows(old(self)),
            match expect_spec(old(self).chars(), old(self).position(), expected.model()) {
                Ok(p) => r matches Ok(t) && t.model() == expected.model() && final(self).position()
                    == p,
                Err(f) => r matches Err(e) && e.model() == f,
            },
    {
        let t = match self.next_token() {
            Ok(t) => t,
            Err(e) => {
                return Err(e);
            },
        };
        if !t.same(&expected) {
            return Err(ParseError::Expected(expected, t));
        }
        Ok(t)
    }

    /// Parses the source into its head node.
    pub fn evaluate<U: FloatUnit>(&mut self, unit: &U) -> (r: Result<Node, ParseError>)
        requires
            old(self).wf(),
        ensures
            final(self).follows(old(self)),
            head_parsed(head_spec(old(self).chars(), old(self).position(), Seq::empty()), r),
    {
        self.parse_head(unit)
    }

    /// Parses the definitions of paths, patterns and bullets up to the end
    /// of the source.
    pub fn parse_head<U: FloatUnit>(&mut self, unit: &U) -> (r: Result<Node, ParseError>)
        requires
            old(self).wf(),
        ensures
            final(self).follows(old(self)),
            head_parsed(head_spec(old(self).chars(), old(self).position(), Seq::empty()), r),
    {
        let mut definitions: Vec<(String, Node)> = Vec::new();
        let ghost total = head_spec(self.chars(), self.position(), Seq::empty());
        proof {
            self.lexer.lemma_within();
            assert(plain_toplevel(toplevel_model(definitions@)) =~= Seq::empty());
        }
        loop
            invariant
                self.follows(old(self)),
                total == head_spec(old(self).chars(), old(self).position(), Seq::empty()),
                total == head_spec(
                    self.chars(),
                    self.position(),
                    plain_toplevel(toplevel_model(definitions@)),
                ),
            decreases self.chars().len() - self.position(),
        {
            let ghost before = self.position();
            let ghost defs = plain_toplevel(toplevel_model(definitions@));
            let token = match self.next_token() {
                Ok(t) => t,
                Err(e) => {
                    return Err(e);
                },
            };
            let named = match token {
                Token::EOF => {
                    return Ok(Node::Head(HeadData { definitions }));
                },
                Token::Keyword(Keyword::Pattern) => self.parse_pattern(MAX_DEPTH, unit),
                Token::Keyword(Keyword::Path) => self.parse_path(MAX_DEPTH, unit),
                Token::Keyword(Keyword::Bullet) => self.parse_bullet(MAX_DEPTH, unit),
                _ => {
                    return Err(ParseError::Token(token));
                },
            };
            match named {
                Ok(named) => {
                    let ghost d = (named.name@, plain_node(named.node.model()));
                    definitions.push((named.name, named.node));
                    assert(plain_toplevel(toplevel_model(definitions@)) =~= defs.push(d));
                },
                Err(e) => {
                    return Err(e);
                },
            }
        }
    }

    /// Parses `name = { .. }` behind the keyword `pattern`.
    pub fn parse_pattern<U: FloatUnit>(&mut self, depth: usize, unit: &U) -> (r: Result<
        NamedToplevel,
        ParseError,
    >)
        requires
            old(self).wf(),
        ensures
            final(self).follows(old(self)),
            named_parsed(
                pattern_spec(old(self).chars(), old(self).position(), depth as nat),
                r,
                final(self).position(),
            ),
        decreases depth,
    {
        proof {
            self.lexer.lemma_within();
        }
        if depth == 0 {
            return Err(ParseError::TooDeep);
        }
        let name = match self.next_token() {
            Ok(t) => t,
            Err(e) => {
                return Err(e);
            },
        };
        match name {
            Token::Id(name) => {
                match self.expect_next(Token::Assign) {
                    Ok(_) => {},
                    Err(e) => {
                        return Err(e);
                    },
                }
                match self.parse_block(depth - 1, unit) {
                    Ok(block) => Ok(NamedToplevel { name, node: Node::Pattern(PatternData { block }) }),
                    Err(e) => Err(e),
                }
            },
            other => Err(ParseError::Expected(Token::String(String::from_str("Id")), other)),
        }
    }

    /// Parses a block: definitions and statements between braces.
    pub fn parse_block<U: FloatUnit>(&mut self, depth: usize, unit: &U) -> (r: Result<Block, ParseError>)
        requires
            old(self).wf(),
        ensures
            final(self).follows(old(self)),
            block_parsed(
                block_spec(old(self).chars(), old(self).position(), depth as nat),
                r,
                final(self).position(),
            ),
        decreases depth,
    {
        proof {
            self.lexer.lemma_within();
        }
        if depth == 0 {
            return Err(ParseError::TooDeep);
        }
        match self.expect_next(Token::OpenBlock) {
            Ok(_) => {},
            Err(e) => {
                return Err(e);
            },
        }
        let mut block = Block::new();
        let ghost total = block_spec(old(self).chars(), old(self).position(), depth as nat);
        proof {
            assert(plain_scope(block.definitions.model()) =~= Seq::empty());
            assert(plain_nodes(nodes_model(block.statements@)) =~= Seq::empty());
        }
        loop
            invariant
                self.follows(old(self)),
                depth > 0,
                total == block_spec(old(self).chars(), old(self).position(), depth as nat),
                total == block_rest(
                    self.chars(),
                    self.position(),
                    depth as nat,
                    plain_scope(block.definitions.model()),
                    plain_nodes(nodes_model(block.statements@)),
                ),
            decreases self.chars().len() - self.position(),
        {
            let ghost defs = plain_scope(block.definitions.model());
            let ghost stmts = plain_nodes(nodes_model(block.statements@));
            let t = match self.next_token() {
                Ok(t) => t,
                Err(e) => {
                    return Err(e);
                },
            };
            match t {
                Token::CloseBlock => {
                    return Ok(block);
                },
                Token::Id(id) => {
                    match self.expect_next(Token::Assign) {
                        Ok(_) => {},
                        Err(e) => {
                            return Err(e);
                        },
                    }
                    match self.parse_expression(depth - 1, unit) {
                        Ok(expression) => {
                            let ghost d = (id@, plain_expr(expression.model()));
                            block.definitions.insert(id, expression);
                            assert(plain_scope(block.definitions.model()) =~= defs.push(d));
                        },
                        Err(e) => {
                            return Err(e);
                        },
                    }
                },
                Token::Keyword(Keyword::For) => match self.parse_for(depth - 1, unit) {
                    Ok(for_data) => {
                        let ghost n = NodeModel::For(plain_for(for_data.model()));
                        block.statements.push(Node::For(for_data));
                        assert(plain_nodes(nodes_model(block.statements@)) =~= stmts.push(n));
                    },
                    Err(e) => {
                        return Err(e);
                    },
                },
                Token::Keyword(Keyword::Wait) => match self.parse_wait(depth - 1, unit) {
                    Ok(wait) => {
                        let ghost n = NodeModel::Wait(plain_wait(wait.model()));
                        block.statements.push(Node::Wait(wait));
                        assert(plain_nodes(nodes_model(block.statements@)) =~= stmts.push(n));
                    },
                    Err(e) => {
                        return Err(e);
                    },
                },
                Token::Keyword(Keyword::Spawn) => match self.parse_spawn(depth - 1, unit) {
                    Ok(spawn) => {
                        let ghost n = NodeModel::Spawn(plain_scope(spawn.definitions.model()));
                        block.statements.push(Node::Spawn(spawn));
                        assert(plain_nodes(nodes_model(block.statements@)) =~= stmts.push(n));
                    },
                    Err(e) => {
                        return Err(e);
                    },
                },
                other => {
                    return Err(ParseError::Token(other));
                },
            }
        }
    }

    /// Parses a block that holds definitions only.
    pub fn parse_values<U: FloatUnit>(&mut self, depth: usize, unit: &U) -> (r: Result<Values, ParseError>)
        requires
            old(self).wf(),
        ensures
            final(self).follows(old(self)),
            values_parsed(
                values_spec(old(self).chars(), old(self).position(), depth as nat),
                r,
                final(self).position(),
            ),
        decreases depth,
    {
        proof {
            self.lexer.lemma_within();
        }
        if depth == 0 {
            return Err(ParseError::TooDeep);
        }
        match self.expect_next(Token::OpenBlock) {
            Ok(_) => {},
            Err(e) => {
                return Err(e);
            },
        }
        let mut definitions = Values::new();
        let ghost total = values_spec(old(self).chars(), old(self).position(), depth as nat);
        proof {
            assert(plain_scope(definitions.model()) =~= Seq::empty());
        }
        loop
            invariant
                self.follows(old(self)),
                depth > 0,
                total == values_spec(old(self).chars(), old(self).position(), depth as nat),
                total == values_rest(
                    self.chars(),
                    self.position(),
                    depth as nat,
                    plain_scope(definitions.model()),
                ),
            decreases self.chars().len() - self.position(),
        {
            let ghost defs = plain_scope(definitions.model());
            let t = match self.next_token() {
                Ok(t) => t,
                Err(e) => {
                    return Err(e);
                },
            };
            match t {
                Token::CloseBlock => {
                    return Ok(definitions);
                },
                Token::Id(id) => {
                    match self.expect_next(Token::Assign) {
                        Ok(_) => {},
                        Err(e) => {
                            return Err(e);
                        },
                    }
                    match self.parse_expression(depth - 1, unit) {
                        Ok(expression) => {
                            let ghost d = (id@, plain_expr(expression.model()));
                            definitions.insert(id, expression);
                            assert(plain_scope(definitions.model()) =~= defs.push(d));
                        },
                        Err(e) => {
                            return Err(e);
                        },
                    }
                },
                _ => {
                    return Err(ParseError::Definitions);
                },
            }
        }
    }

    /// Parses an expression with what ends it: a semicolon, or `seconds;`
    /// or `frames;`, which make a duration of a number; a closing brace or
    /// bracket, a comma or an equals sign is left unread.
    pub fn parse_expression<U: FloatUnit>(&mut self, depth: usize, unit: &U) -> (r: Result<
        ExpressionType,
        ParseError,
    >)
        requires
            old(self).wf(),
        ensures
            final(self).follows(old(self)),
            expr_parsed(
                expression_spec(old(self).chars(), old(self).position(), depth as nat),
                r,
                final(self).position(),
            ),
            r matches Ok(ExpressionType::Duration(w)) ==> well_formed_duration(*w),
        decreases depth,
    {
        proof {
            self.lexer.lemma_within();
        }
        if depth == 0 {
            return Err(ParseError::TooDeep);
        }
        let expr = match self.parse_expression_r(depth - 1, unit) {
            Ok(e) => e,
            Err(e) => {
                return Err(e);
            },
        };
        proof {
            lemma_model_variant(expr);
        }
        let ahead = match self.lookahead(1) {
            Ok(t) => t,
            Err(e) => {
                return Err(e);
            },
        };
        match ahead {
            Token::Keyword(Keyword::Seconds) => {
                let _ = self.next_token();
                match self.expect_next(Token::Semicolon) {
                    Ok(_) => {},
                    Err(e) => {
                        return Err(e);
                    },
                }
                match expr {
                    ExpressionType::Int(_) | ExpressionType::Float(_) => {
                        let ghost em = expr.model();
                        let w = WaitData::Time(expr);
                        assert(w.model() == WaitModel::Time(em));
                        assert(plain_wait(w.model()) == WaitModel::Time(plain_expr(em)));
                        Ok(ExpressionType::Duration(Box::new(w)))
                    },
                    _ => Err(ParseError::TimeTypeError),
                }
            },
            Token::Keyword(Keyword::Frames) => {
                let _ = self.next_token();
                match self.expect_next(Token::Semicolon) {
                    Ok(_) => {},
                    Err(e) => {
                        return Err(e);
                    },
                }
                match expr {
                    ExpressionType::Int(_) => {
                        let ghost em = expr.model();
                        let w = WaitData::Frames(expr);
                        assert(w.model() == WaitModel::Frames(em));
                        assert(plain_wait(w.model()) == WaitModel::Frames(plain_expr(em)));
                        Ok(ExpressionType::Duration(Box::new(w)))
                    },
                    _ => Err(ParseError::TimeTypeError),
                }
            },
            Token::Semicolon => {
                let _ = self.next_token();
                match expr {
                    ExpressionType::Duration(_) => Err(ParseError::TimeTypeError),
                    expr => Ok(expr),
                }
            },
            Token::CloseBlock | Token::Assign | Token::CloseParen | Token::Comma => match expr {
                ExpressionType::Duration(_) => Err(ParseError::TimeTypeError),
                expr => Ok(expr),
            },
            _ => Err(ParseError::NeedsClearerError("Expressions should end in } or ;.")),
        }
    }

    /// Parses an expression without what ends it: a block, a string, or
    /// operators and values.
    pub fn parse_expression_r<U: FloatUnit>(&mut self, depth: usize, unit: &U) -> (r: Result<
        ExpressionType,
        ParseError,
    >)
        requires
            old(self).wf(),
        ensures
            final(self).follows(old(self)),
            expr_parsed(
                expression_r_spec(old(self).chars(), old(self).position(), depth as nat),
                r,
                final(self).position(),
            ),
        decreases depth,
    {
        proof {
            self.lexer.lemma_within();
        }
        if depth == 0 {
            return Err(ParseError::TooDeep);
        }
        let t = match self.lookahead(1) {
            Ok(t) => t,
            Err(e) => {
                return Err(e);
            },
        };
        match t {
            Token::OpenBlock => match self.parse_block(depth - 1, unit) {
                Ok(block) => Ok(ExpressionType::Block(block)),
                Err(e) => Err(e),
            },
            Token::String(s) => {
                let _ = self.next_token();
                Ok(ExpressionType::String(s))
            },
            _ => self.parse_expression_p(0, depth - 1, unit),
        }
    }

    /// Parses operators and values, taking in the operators that bind at
    /// least as tightly as `precedence`.
    pub fn parse_expression_p<U: FloatUnit>(&mut self, precedence: u32, depth: usize, unit: &U) -> (r:
        Result<ExpressionType, ParseError>)
        requires
            old(self).wf(),
        ensures
            final(self).follows(old(self)),
            expr_parsed(
                expression_p_spec(old(self).chars(), old(self).position(), precedence, depth as nat),
                r,
                final(self).position(),
            ),
        decreases depth,
    {
        proof {
            self.lexer.lemma_within();
        }
        if depth == 0 {
            return Err(ParseError::TooDeep);
        }
        let mut tree = match self.parse_operator_or_value(depth - 1, unit) {
            Ok(e) => e,
            Err(e) => {
                return Err(e);
            },
        };
        let ghost total = expression_p_spec(
            old(self).chars(),
            old(self).position(),
            precedence,
            depth as nat,
        );
        loop
            invariant
                self.follows(old(self)),
                depth > 0,
                total == expression_p_spec(
                    old(self).chars(),
                    old(self).position(),
                    precedence,
                    depth as nat,
                ),
                total == operators_rest(
                    self.chars(),
                    self.position(),
                    precedence,
                    depth as nat,
                    plain_expr(tree.model()),
                ),
            decreases self.chars().len() - self.position(),
        {
            let next = match self.lookahead(1) {
                Ok(t) => t,
                Err(e) => {
                    return Err(e);
                },
            };
            match next {
                Token::Operator(op) => {
                    let p = self.operator_precedence(&op);
                    if p < precedence {
                        return Ok(tree);
                    }
                    match self.next_token() {
                        Ok(Token::EOF) => {
                            return Err(ParseError::EOF);
                        },
                        Ok(_) => {},
                        Err(e) => {
                            return Err(e);
                        },
                    }
                    let new_precedence = match op {
                        Op::Exp => p + 1,
                        _ => p,
                    };
                    let rhs = match self.parse_expression_p(new_precedence, depth - 1, unit) {
                        Ok(e) => e,
                        Err(e) => {
                            return Err(e);
                        },
                    };
                    tree =
                    ExpressionType::Expr(
                        ArithmeticExpression::Binary(op, Box::new(tree), Box::new(rhs)),
                    );
                },
                _ => {
                    return Ok(tree);
                },
            }
        }
    }

    /// How tightly a binary operator binds: `or` least, then `and`, the
    /// comparisons, `+` and `-`, `*` and `/`, and `^` most. (A minus sign
    /// before a value binds at 4.)
    pub fn operator_precedence(&self, op: &Op) -> (r: u32)
        ensures
            r == precedence_spec(*op),
    {
        match op {
            Op::Or => 0,
            Op::And => 1,
            Op::Test | Op::GT | Op::LT | Op::GTE | Op::LTE => 2,
            Op::Add | Op::Sub => 3,
            Op::Div | Op::Mul => 5,
            Op::Exp => 6,
        }
    }

    /// Whether the bracket that is next opens a vector: whether a comma
    /// stands in it outside any inner bracket.
    fn opens_vector(&mut self) -> (r: Result<bool, ParseError>)
        requires
            old(self).wf(),
        ensures
            final(self).follows(old(self)),
            final(self).position() == old(self).position(),
            match opens_vector_spec(old(self).chars(), old(self).position(), 1, 0, false) {
                Ok(b) => r matches Ok(x) && x == b,
                Err(f) => r matches Err(e) && e.model() == f,
            },
    {
        proof {
            self.lexer.lemma_within();
        }
        let mut found_vector = false;
        let mut nested: u32 = 0;
        let mut n: u32 = 1;
        let ghost total = opens_vector_spec(self.chars(), self.position(), 1, 0, false);
        loop
            invariant
                self.follows(old(self)),
                self.position() == old(self).position(),
                nested < n,
                total == opens_vector_spec(old(self).chars(), old(self).position(), 1, 0, false),
                total == opens_vector_spec(self.chars(), self.position(), n, nested, found_vector),
            decreases u32::MAX - n,
        {
            let t = match self.lookahead(n) {
                Ok(t) => t,
                Err(e) => {
                    return Err(e);
                },
            };
            match t {
                Token::OpenParen => {
                    if n == u32::MAX {
                        return Err(ParseError::TooDeep);
                    }
                    nested += 1;
                },
                Token::CloseParen => {
                    if nested <= 1 {
                        return Ok(found_vector);
                    }
                    if n == u32::MAX {
                        return Err(ParseError::TooDeep);
                    }
                    nested -= 1;
                },
                Token::Comma => {
                    if n == u32::MAX {
                        return Err(ParseError::TooDeep);
                    }
                    if nested == 1 {
                        found_vector = true;
                    }
                },
                Token::EOF => {
                    return Err(ParseError::EOF);
                },
                _ => {
                    if n == u32::MAX {
                        return Err(ParseError::TooDeep);
                    }
                },
            }
            n += 1;
        }
    }

    /// Parses a value with what stands before it: a negation, a bracketed
    /// expression, a vector, a number, a variable or a function call.
    pub fn parse_operator_or_value<U: FloatUnit>(&mut self, depth: usize, unit: &U) -> (r: Result<
        ExpressionType,
        ParseError,
    >)
        requires
            old(self).wf(),
        ensures
            final(self).follows(old(self)),
            expr_parsed(
                operand_spec(old(self).chars(), old(self).position(), depth as nat),
                r,
                final(self).position(),
            ),
        decreases depth,
    {
        proof {
            self.lexer.lemma_within();
        }
        if depth == 0 {
            return Err(ParseError::TooDeep);
        }
        let t = match self.lookahead(1) {
            Ok(t) => t,
            Err(e) => {
                return Err(e);
            },
        };
        match t {
            Token::Operator(Op::Sub) => {
                let _ = self.next_token();
                match self.parse_expression_p(4, depth - 1, unit) {
                    Ok(expr) => Ok(
                        ExpressionType::Expr(
                            ArithmeticExpression::Unary(UnaryOperator::Negate, Box::new(expr)),
                        ),
                    ),
                    Err(e) => Err(e),
                }
            },
            Token::OpenParen => {
                let found_vector = match self.opens_vector() {
                    Ok(b) => b,
                    Err(e) => {
                        return Err(e);
                    },
                };
                let _ = self.next_token();
                if found_vector {
                    let mut v: Vec<ExpressionType> = Vec::new();
                    let ghost total = operand_spec(
                        old(self).chars(),
                        old(self).position(),
                        depth as nat,
                    );
                    proof {
                        assert(plain_exprs(exprs_model(v@)) =~= Seq::empty());
                    }
                    loop
                        invariant
                            self.follows(old(self)),
                            depth > 0,
                            total == operand_spec(
                                old(self).chars(),
                                old(self).position(),
                                depth as nat,
                            ),
                            total == vector_rest(
                                self.chars(),
                                self.position(),
                                depth as nat,
                                plain_exprs(exprs_model(v@)),
                            ),
                        decreases self.chars().len() - self.position(),
                    {
                        let ghost elements = plain_exprs(exprs_model(v@));
                        match self.parse_expression_r(depth - 1, unit) {
                            Ok(e) => {
                                let ghost m = plain_expr(e.model());
                                v.push(e);
                                assert(plain_exprs(exprs_model(v@)) =~= elements.push(m));
                            },
                            Err(e) => {
                                return Err(e);
                            },
                        }
                        let next = match self.next_token() {
                            Ok(t) => t,
                            Err(e) => {
                                return Err(e);
                            },
                        };
                        match next {
                            Token::Comma => {},
                            Token::CloseParen => {
                                return Ok(ExpressionType::Vector(v));
                            },
                            _ => {
                                return Err(ParseError::BadVecElement);
                            },
                        }
                    }
                } else {
                    let r = match self.parse_expression_r(depth - 1, unit) {
                        Ok(e) => e,
                        Err(e) => {
                            return Err(e);
                        },
                    };
                    match self.expect_next(Token::CloseParen) {
                        Ok(_) => Ok(r),
                        Err(e) => Err(e),
                    }
                }
            },
            Token::Number(_) => self.parse_number(unit),
            Token::Id(id) => {
                let next_t = match self.lookahead(2) {
                    Ok(t) => t,
                    Err(e) => {
                        return Err(e);
                    },
                };
                let _ = self.next_token();
                match next_t {
                    Token::OpenParen => {
                        let after = match self.lookahead(2) {
                            Ok(t) => t,
                            Err(e) => {
                                return Err(e);
                            },
                        };
                        match after {
                            Token::CloseParen => {
                                let _ = self.next_token();
                                let _ = self.next_token();
                                assert(ExpressionType::Nothing.model() == ExprModel::Nothing);
                                assert(plain_expr(ExprModel::Nothing) == ExprModel::Nothing);
                                Ok(
                                    ExpressionType::Expr(
                                        ArithmeticExpression::Unary(
                                            UnaryOperator::FunctionCall(id),
                                            Box::new(ExpressionType::Nothing),
                                        ),
                                    ),
                                )
                            },
                            _ => match self.parse_expression_r(depth - 1, unit) {
                                Ok(expr) => Ok(
                                    ExpressionType::Expr(
                                        ArithmeticExpression::Unary(
                                            UnaryOperator::FunctionCall(id),
                                            Box::new(expr),
                                        ),
                                    ),
                                ),
                                Err(e) => Err(e),
                            },
                        }
                    },
                    _ => Ok(ExpressionType::Variable(id)),
                }
            },
            _ => Err(
                ParseError::NeedsClearerError("Expected value within operator parsing, got token"),
            ),
        }
    }

    /// Parses the variables of a loop, each with its range, up to the
    /// closing bracket.
    fn parse_variables<U: FloatUnit>(&mut self, unit: &U) -> (r: Result<Values, ParseError>)
        requires
            old(self).wf(),
        ensures
            final(self).follows(old(self)),
            values_parsed(
                variables_spec(old(self).chars(), old(self).position(), Seq::empty()),
                r,
                final(self).position(),
            ),
    {
        proof {
            self.lexer.lemma_within();
        }
        let mut initial_definitions = Values::new();
        let ghost total = variables_spec(self.chars(), self.position(), Seq::empty());
        proof {
            assert(plain_scope(initial_definitions.model()) =~= Seq::empty());
        }
        loop
            invariant
                self.follows(old(self)),
                total == variables_spec(old(self).chars(), old(self).position(), Seq::empty()),
                total == variables_spec(
                    self.chars(),
                    self.position(),
                    plain_scope(initial_definitions.model()),
                ),
            decreases self.chars().len() - self.position(),
        {
            let ghost vars = plain_scope(initial_definitions.model());
            let t = match self.next_token() {
                Ok(t) => t,
                Err(e) => {
                    return Err(e);
                },
            };
            match t {
                Token::CloseParen => {
                    return Ok(initial_definitions);
                },
                Token::Id(id) => {
                    match self.expect_next(Token::Assign) {
                        Ok(_) => {},
                        Err(e) => {
                            return Err(e);
                        },
                    }
                    match self.parse_range(unit) {
                        Ok(range) => {
                            let ghost d = (id@, plain_expr(range.model()));
                            initial_definitions.insert(id, range);
                            assert(plain_scope(initial_definitions.model()) =~= vars.push(d));
                        },
                        Err(e) => {
                            return Err(e);
                        },
                    }
                },
                Token::Comma => {},
                _ => {
                    return Err(ParseError::InvalidForDef);
                },
            }
        }
    }

    /// Parses the guard of a loop, where there is one before its body.
    fn parse_guard<U: FloatUnit>(&mut self, depth: usize, unit: &U) -> (r: Result<Condition, ParseError>)
        requires
            old(self).wf(),
            depth > 0,
        ensures
            final(self).follows(old(self)),
            match guard_spec(old(self).chars(), old(self).position(), depth as nat) {
                Ok((m, p)) => r matches Ok(x) && plain_cond(x.model()) == m && final(self).position()
                    == p,
                Err(f) => r matches Err(e) && e.model() == f,
            },
        decreases depth, 0nat,
    {
        proof {
            self.lexer.lemma_within();
        }
        let ahead = match self.lookahead(1) {
            Ok(t) => t,
            Err(e) => {
                return Err(e);
            },
        };
        match ahead {
            Token::OpenBlock => Ok(Condition::Always),
            _ => {
                let t = match self.next_token() {
                    Ok(t) => t,
                    Err(e) => {
                        return Err(e);
                    },
                };
                match self.expect_next(Token::OpenParen) {
                    Ok(_) => {},
                    Err(e) => {
                        return Err(e);
                    },
                }
                let expression = match self.parse_expression(depth - 1, unit) {
                    Ok(e) => e,
                    Err(e) => {
                        return Err(e);
                    },
                };
                let condition = match t {
                    Token::Condition(ConditionToken::When) => Condition::When(expression),
                    Token::Condition(ConditionToken::Unless) => Condition::Unless(expression),
                    other => {
                        return Err(ParseError::Token(other));
                    },
                };
                match self.expect_next(Token::CloseParen) {
                    Ok(_) => Ok(condition),
                    Err(e) => Err(e),
                }
            },
        }
    }

    /// Parses a loop behind the keyword `for`: its variables with their
    /// ranges in brackets, a guard if there is one, and its body.
    pub fn parse_for<U: FloatUnit>(&mut self, depth: usize, unit: &U) -> (r: Result<ForData, ParseError>)
        requires
            old(self).wf(),
        ensures
            final(self).follows(old(self)),
            match for_spec(old(self).chars(), old(self).position(), depth as nat) {
                Ok((m, p)) => r matches Ok(x) && plain_for(x.model()) == m && final(self).position()
                    == p,
                Err(f) => r matches Err(e) && e.model() == f,
            },
        decreases depth, 1nat,
    {
        proof {
            self.lexer.lemma_within();
        }
        if depth == 0 {
            return Err(ParseError::TooDeep);
        }
        match self.expect_next(Token::OpenParen) {
            Ok(_) => {},
            Err(e) => {
                return Err(e);
            },
        }
        let initial_definitions = match self.parse_variables(unit) {
            Ok(v) => v,
            Err(e) => {
                return Err(e);
            },
        };
        let condition = match self.parse_guard(depth, unit) {
            Ok(c) => c,
            Err(e) => {
                return Err(e);
            },
        };
        match self.parse_block(depth - 1, unit) {
            Ok(body) => Ok(ForData { initial_definitions, condition, body }),
            Err(e) => Err(e),
        }
    }

    /// Parses a number: an integer, or with a point a floating-point
    /// number.
    pub fn parse_number<U: FloatUnit>(&mut self, unit: &U) -> (r: Result<ExpressionType, ParseError>)
        requires
            old(self).wf(),
        ensures
            final(self).follows(old(self)),
            expr_parsed(
                number_spec(old(self).chars(), old(self).position()),
                r,
                final(self).position(),
            ),
    {
        proof {
            self.lexer.lemma_within();
        }
        let t = match self.next_token() {
            Ok(t) => t,
            Err(e) => {
                return Err(e);
            },
        };
        match t {
            Token::Number(n) => {
                if has_point(n.as_str()) {
                    Ok(ExpressionType::Float(unit.parse(n.as_str())))
                } else {
                    match parse_int(n.as_str()) {
                        Some(i) => Ok(ExpressionType::Int(i)),
                        None => Err(ParseError::InvalidNumber),
                    }
                }
            },
            _ => Err(ParseError::InvalidNumber),
        }
    }

    /// Parses a range `a...b` of two integers.
    pub fn parse_range<U: FloatUnit>(&mut self, unit: &U) -> (r: Result<ExpressionType, ParseError>)
        requires
            old(self).wf(),
        ensures
            final(self).follows(old(self)),
            expr_parsed(
                range_spec(old(self).chars(), old(self).position()),
                r,
                final(self).position(),
            ),
    {
        let start = match self.parse_number(unit) {
            Ok(e) => e,
            Err(e) => {
                return Err(e);
            },
        };
        match self.expect_next(Token::RangeSeparator) {
            Ok(_) => {},
            Err(e) => {
                return Err(e);
            },
        }
        let end = match self.parse_number(unit) {
            Ok(e) => e,
            Err(e) => {
                return Err(e);
            },
        };
        proof {
            lemma_model_variant(start);
            lemma_model_variant(end);
        }
        match (start, end) {
            (ExpressionType::Int(s), ExpressionType::Int(e)) => Ok(ExpressionType::Range(s, e)),
            _ => Err(ParseError::RangeMustBeInt),
        }
    }

    /// Parses the duration behind the keyword `wait`.
    pub fn parse_wait<U: FloatUnit>(&mut self, depth: usize, unit: &U) -> (r: Result<WaitData, ParseError>)
        requires
            old(self).wf(),
        ensures
            final(self).follows(old(self)),
            match wait_spec(old(self).chars(), old(self).position(), depth as nat) {
                Ok((m, p)) => r matches Ok(x) && plain_wait(x.model()) == m && final(self).position()
                    == p,
                Err(f) => r matches Err(e) && e.model() == f,
            },
            r matches Ok(w) ==> well_formed_duration(w),
        decreases depth,
    {
        proof {
            self.lexer.lemma_within();
        }
        if depth == 0 {
            return Err(ParseError::TooDeep);
        }
        match self.parse_expression(depth - 1, unit) {
            Ok(e) => {
                proof {
                    lemma_model_variant(e);
                }
                match e {
                    ExpressionType::Duration(wd) => Ok(*wd),
                    _ => Err(ParseError::NeedsClearerError("Found invalid time expression")),
                }
            },
            Err(e) => Err(e),
        }
    }

    /// Parses the fields behind the keyword `spawn`.
    pub fn parse_spawn<U: FloatUnit>(&mut self, depth: usize, unit: &U) -> (r: Result<SpawnData, ParseError>)
        requires
            old(self).wf(),
        ensures
            final(self).follows(old(self)),
            match spawn_spec(old(self).chars(), old(self).position(), depth as nat) {
                Ok((m, p)) => r matches Ok(x) && plain_scope(x.definitions.model()) == m
                    && final(self).position() == p,
                Err(f) => r matches Err(e) && e.model() == f,
            },
        decreases depth,
    {
        proof {
            self.lexer.lemma_within();
        }
        if depth == 0 {
            return Err(ParseError::TooDeep);
        }
        match self.parse_block(depth - 1, unit) {
            Ok(block) => Ok(SpawnData { definitions: block.definitions }),
            Err(e) => Err(e),
        }
    }

    /// Parses `name(arguments) = { .. }` behind the keyword `path`.
    pub fn parse_path<U: FloatUnit>(&mut self, depth: usize, unit: &U) -> (r: Result<
        NamedToplevel,
        ParseError,
    >)
        requires
            old(self).wf(),
        ensures
            final(self).follows(old(self)),
            named_parsed(
                path_spec(old(self).chars(), old(self).position(), depth as nat),
                r,
                final(self).position(),
            ),
        decreases depth,
    {
        proof {
            self.lexer.lemma_within();
        }
        if depth == 0 {
            return Err(ParseError::TooDeep);
        }
        let name = match self.next_token() {
            Ok(t) => t,
            Err(e) => {
                return Err(e);
            },
        };
        match name {
            Token::Id(name) => {
                let arguments = match self.parse_expression(depth - 1, unit) {
                    Ok(e) => e,
                    Err(e) => {
                        return Err(e);
                    },
                };
                match self.expect_next(Token::Assign) {
                    Ok(_) => {},
                    Err(e) => {
                        return Err(e);
                    },
                }
                match self.parse_values(depth - 1, unit) {
                    Ok(definitions) => Ok(
                        NamedToplevel { name, node: Node::Path(PathData { arguments, definitions }) },
                    ),
                    Err(e) => Err(e),
                }
            },
            other => Err(ParseError::Expected(Token::String(String::from_str("Id")), other)),
        }
    }

    /// Parses `name = { .. }` behind the keyword `bullet`.
    pub fn parse_bullet<U: FloatUnit>(&mut self, depth: usize, unit: &U) -> (r: Result<
        NamedToplevel,
        ParseError,
    >)
        requires
            old(self).wf(),
        ensures
            final(self).follows(old(self)),
            named_parsed(
                bullet_spec(old(self).chars(), old(self).position(), depth as nat),
                r,
                final(self).position(),
            ),
        decreases depth,
    {
        proof {
            self.lexer.lemma_within();
        }
        if depth == 0 {
            return Err(ParseError::TooDeep);
        }
        let name = match self.next_token() {
            Ok(t) => t,
            Err(e) => {
                return Err(e);
            },
        };
        match name {
            Token::Id(name) => {
                match self.expect_next(Token::Assign) {
                    Ok(_) => {},
                    Err(e) => {
                        return Err(e);
                    },
                }
                match self.parse_values(depth - 1, unit) {
                    Ok(definitions) => Ok(
                        NamedToplevel { name, node: Node::Bullet(BulletData { definitions }) },
                    ),
                    Err(e) => Err(e),
                }
            },
            other => Err(ParseError::Expected(Token::String(String::from_str("Id")), other)),
        }
    }
}

} // verus!
