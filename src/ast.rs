use vstd::prelude::*;

verus! {

/// A name in the source text, with the sigil that preceded it: `"`, `:`,
/// `Q` for a bare query word, or empty for a bare word.
#[derive(Debug, PartialEq, Clone)]
pub struct Identifier(pub String, pub String);

/// The binary operators of the language, all written in prefix position.
#[derive(Debug, PartialEq, Eq, Clone, Copy, Structural)]
pub enum Operator {
    Add,
    Subtract,
    Multiply,
    Divide,
    Modulo,
    And,
    Or,
    Equal,
    NotEqual,
    GreaterThan,
    LessThan,
}

/// An expression: binary operations own their two operands.
#[derive(Debug, PartialEq)]
pub enum Expression {
    Addition(Box<Expression>, Box<Expression>),
    Subtraction(Box<Expression>, Box<Expression>),
    Multiplication(Box<Expression>, Box<Expression>),
    Division(Box<Expression>, Box<Expression>),
    Modulo(Box<Expression>, Box<Expression>),
    And(Box<Expression>, Box<Expression>),
    Or(Box<Expression>, Box<Expression>),
    Equals(Box<Expression>, Box<Expression>),
    NotEquals(Box<Expression>, Box<Expression>),
    GreaterThan(Box<Expression>, Box<Expression>),
    LessThan(Box<Expression>, Box<Expression>),
    QueryXCor,
    QueryYCor,
    QueryHeading,
    QueryColor,
    VariableReference(String),
    StringLiteral(String),
    IntegerLiteral(i32),
}

/// A single statement of a program.
#[derive(Debug, PartialEq)]
pub enum Statement {
    PenUp,
    PenDown,
    Forward(Box<Expression>),
    Back(Box<Expression>),
    Left(Box<Expression>),
    Right(Box<Expression>),
    Turn(Box<Expression>),
    SetX(Box<Expression>),
    SetY(Box<Expression>),
    SetHeading(Box<Expression>),
    SetPenColor(Box<Expression>),
    Make(Identifier, Box<Expression>),
    AddAssign(Identifier, Box<Expression>),
    If(Box<Expression>, Box<Block>),
    While(Box<Expression>, Box<Block>),
    Repeat(Box<Expression>, Box<Block>),
    ProcedureDefinition { name: Identifier, parameters: Vec<Expression>, body: Block },
    ProcedureCall { name: Identifier, arguments: Vec<Expression> },
}

/// A sequence of statements, run in order.
pub type Block = Vec<Statement>;

/// The expression that applies `op` to `lhs` and `rhs`.
pub open spec fn binary_spec(op: Operator, lhs: Expression, rhs: Expression) -> Expression {
    let (l, r) = (Box::new(lhs), Box::new(rhs));
    match op {
        Operator::Add => Expression::Addition(l, r),
        Operator::Subtract => Expression::Subtraction(l, r),
        Operator::Multiply => Expression::Multiplication(l, r),
        Operator::Divide => Expression::Division(l, r),
        Operator::Modulo => Expression::Modulo(l, r),
        Operator::And => Expression::And(l, r),
        Operator::Or => Expression::Or(l, r),
        Operator::Equal => Expression::Equals(l, r),
        Operator::NotEqual => Expression::NotEquals(l, r),
        Operator::GreaterThan => Expression::GreaterThan(l, r),
        Operator::LessThan => Expression::LessThan(l, r),
    }
}

impl Expression {
    /// Builds the expression that applies `op` to `lhs` and `rhs`.
    pub fn binary(op: Operator, lhs: Expression, rhs: Expression) -> (r: Expression)
        ensures
            r == binary_spec(op, lhs, rhs),
    {
        let (l, r) = (Box::new(lhs), Box::new(rhs));
        match op {
            Operator::Add => Expression::Addition(l, r),
            Operator::Subtract => Expression::Subtraction(l, r),
            Operator::Multiply => Expression::Multiplication(l, r),
            Operator::Divide => Expression::Division(l, r),
            Operator::Modulo => Expression::Modulo(l, r),
            Operator::And => Expression::And(l, r),
            Operator::Or => Expression::Or(l, r),
            Operator::Equal => Expression::Equals(l, r),
            Operator::NotEqual => Expression::NotEquals(l, r),
            Operator::GreaterThan => Expression::GreaterThan(l, r),
            Operator::LessThan => Expression::LessThan(l, r),
        }
    }
}

/// The turtle queries that an expression may read.
#[derive(Debug, PartialEq, Eq, Clone, Copy, Structural)]
pub enum Query {
    XCor,
    YCor,
    Heading,
    Color,
}

/// The statements that take one integer argument and act on the turtle.
#[derive(Debug, PartialEq, Eq, Clone, Copy, Structural)]
pub enum Command {
    Forward,
    Back,
    Left,
    Right,
    Turn,
    SetX,
    SetY,
    SetHeading,
    SetPenColor,
}

/// The mathematical form of an expression: names and strings as character
/// sequences, the binary operations under one variant.
pub enum ExprM {
    Binary(Operator, Box<ExprM>, Box<ExprM>),
    Query(Query),
    Variable(Seq<char>),
    Text(Seq<char>),
    Integer(i32),
}

/// The mathematical form of an identifier: its name and its sigil.
pub type IdentM = (Seq<char>, Seq<char>);

/// The mathematical form of a statement.
pub enum StmtM {
    PenUp,
    PenDown,
    Command(Command, ExprM),
    Make(IdentM, ExprM),
    AddAssign(IdentM, ExprM),
    If(ExprM, Seq<StmtM>),
    While(ExprM, Seq<StmtM>),
    Repeat(ExprM, Seq<StmtM>),
    Define(IdentM, Seq<ExprM>, Seq<StmtM>),
    Call(IdentM, Seq<ExprM>),
}

pub open spec fn ident_view(i: Identifier) -> IdentM {
    (i.0@, i.1@)
}

pub open spec fn expr_view(e: Expression) -> ExprM
    decreases e,
{
    match e {
        Expression::Addition(l, r) => ExprM::Binary(
            Operator::Add,
            Box::new(expr_view(*l)),
            Box::new(expr_view(*r)),
        ),
        Expression::Subtraction(l, r) => ExprM::Binary(
            Operator::Subtract,
            Box::new(expr_view(*l)),
            Box::new(expr_view(*r)),
        ),
        Expression::Multiplication(l, r) => ExprM::Binary(
            Operator::Multiply,
            Box::new(expr_view(*l)),
            Box::new(expr_view(*r)),
        ),
        Expression::Division(l, r) => ExprM::Binary(
            Operator::Divide,
            Box::new(expr_view(*l)),
            Box::new(expr_view(*r)),
        ),
        Expression::Modulo(l, r) => ExprM::Binary(
            Operator::Modulo,
            Box::new(expr_view(*l)),
            Box::new(expr_view(*r)),
        ),
        Expression::And(l, r) => ExprM::Binary(
            Operator::And,
            Box::new(expr_view(*l)),
            Box::new(expr_view(*r)),
        ),
        Expression::Or(l, r) => ExprM::Binary(
            Operator::Or,
            Box::new(expr_view(*l)),
            Box::new(expr_view(*r)),
        ),
        Expression::Equals(l, r) => ExprM::Binary(
            Operator::Equal,
            Box::new(expr_view(*l)),
            Box::new(expr_view(*r)),
        ),
        Expression::NotEquals(l, r) => ExprM::Binary(
            Operator::NotEqual,
            Box::new(expr_view(*l)),
            Box::new(expr_view(*r)),
        ),
        Expression::GreaterThan(l, r) => ExprM::Binary(
            Operator::GreaterThan,
            Box::new(expr_view(*l)),
            Box::new(expr_view(*r)),
        ),
        Expression::LessThan(l, r) => ExprM::Binary(
            Operator::LessThan,
            Box::new(expr_view(*l)),
            Box::new(expr_view(*r)),
        ),
        Expression::QueryXCor => ExprM::Query(Query::XCor),
        Expression::QueryYCor => ExprM::Query(Query::YCor),
        Expression::QueryHeading => ExprM::Query(Query::Heading),
        Expression::QueryColor => ExprM::Query(Query::Color),
        Expression::VariableReference(n) => ExprM::Variable(n@),
        Expression::StringLiteral(t) => ExprM::Text(t@),
        Expression::IntegerLiteral(v) => ExprM::Integer(v),
    }
}

pub open spec fn exprs_view(v: Seq<Expression>) -> Seq<ExprM> {
    Seq::new(v.len(), |i: int| expr_view(v[i]))
}

pub open spec fn stmt_view(s: Statement) -> StmtM
    decreases s, 0nat,
{
    match s {
        Statement::PenUp => StmtM::PenUp,
        Statement::PenDown => StmtM::PenDown,
        Statement::Forward(e) => StmtM::Command(Command::Forward, expr_view(*e)),
        Statement::Back(e) => StmtM::Command(Command::Back, expr_view(*e)),
        Statement::Left(e) => StmtM::Command(Command::Left, expr_view(*e)),
        Statement::Right(e) => StmtM::Command(Command::Right, expr_view(*e)),
        Statement::Turn(e) => StmtM::Command(Command::Turn, expr_view(*e)),
        Statement::SetX(e) => StmtM::Command(Command::SetX, expr_view(*e)),
        Statement::SetY(e) => StmtM::Command(Command::SetY, expr_view(*e)),
        Statement::SetHeading(e) => StmtM::Command(Command::SetHeading, expr_view(*e)),
        Statement::SetPenColor(e) => StmtM::Command(Command::SetPenColor, expr_view(*e)),
        Statement::Make(i, e) => StmtM::Make(ident_view(i), expr_view(*e)),
        Statement::AddAssign(i, e) => StmtM::AddAssign(ident_view(i), expr_view(*e)),
        Statement::If(c, b) => StmtM::If(expr_view(*c), block_view((*b)@)),
        Statement::While(c, b) => StmtM::While(expr_view(*c), block_view((*b)@)),
        Statement::Repeat(c, b) => StmtM::Repeat(expr_view(*c), block_view((*b)@)),
        Statement::ProcedureDefinition { name, parameters, body } => StmtM::Define(
            ident_view(name),
            exprs_view(parameters@),
            block_view(body@),
        ),
        Statement::ProcedureCall { name, arguments } => StmtM::Call(
            ident_view(name),
            exprs_view(arguments@),
        ),
    }
}

/// The models of the statements of `b`, in order.
pub open spec fn block_view(b: Seq<Statement>) -> Seq<StmtM>
    decreases b, 1nat,
{
    Seq::new(b.len(), |i: int| if 0 <= i < b.len() { stmt_view(b[i]) } else { StmtM::PenUp })
}

impl View for Identifier {
    type V = IdentM;

    open spec fn view(&self) -> IdentM {
        ident_view(*self)
    }
}

impl View for Expression {
    type V = ExprM;

    open spec fn view(&self) -> ExprM {
        expr_view(*self)
    }
}

impl View for Statement {
    type V = StmtM;

    open spec fn view(&self) -> StmtM {
        stmt_view(*self)
    }
}

/// A type of this library that names itself in diagnostics.
pub trait Named {
    /// The path of the type, as diagnostics print it.
    spec fn path_spec() -> Seq<char>;

    fn type_path() -> (r: &'static str)
        ensures
            r@ == Self::path_spec(),
    ;
}

impl Named for Identifier {
    open spec fn path_spec() -> Seq<char> {
        "logo_turtle::ast::Identifier"@
    }

    fn type_path() -> (r: &'static str) {
        "logo_turtle::ast::Identifier"
    }
}

impl Named for Operator {
    open spec fn path_spec() -> Seq<char> {
        "logo_turtle::ast::Operator"@
    }

    fn type_path() -> (r: &'static str) {
        "logo_turtle::ast::Operator"
    }
}

impl Named for Expression {
    open spec fn path_spec() -> Seq<char> {
        "logo_turtle::ast::Expression"@
    }

    fn type_path() -> (r: &'static str) {
        "logo_turtle::ast::Expression"
    }
}

impl Named for Statement {
    open spec fn path_spec() -> Seq<char> {
        "logo_turtle::ast::Statement"@
    }

    fn type_path() -> (r: &'static str) {
        "logo_turtle::ast::Statement"
    }
}

/// The path of the type of `value`, for diagnostics: it depends on the type
/// alone, never on the value.
pub fn check_type<T: Named>(value: &T) -> (r: &'static str)
    ensures
        r@ == T::path_spec(),
{
    T::type_path()
}

} // verus!
