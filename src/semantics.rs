//! The meaning of programs: expression values and the effect of statements
//! on a machine made of a turtle, a scope stack and a procedure table, as
//! mathematical functions.
//!
//! Running a program takes steps from a budget: each statement, and each
//! pass of a `WHILE` or `REPEAT` loop, takes one. A program that runs out of
//! steps stops with `EvalError::StepLimit`.

use vstd::prelude::*;
use crate::ast::{Command, ExprM, Operator, Query, StmtM};
use crate::text::ascii_lower;
use crate::turtle::{
    negated, next_reply, normal_heading, turtle_jump, turtle_move, Replies, TurtleError, TurtleView,
    PALETTE_SIZE,
};

verus! {

/// The model of a runtime value.
pub enum ValueM {
    Integer(i32),
    Text(Seq<char>),
}

/// Why evaluation stopped.
#[derive(Debug, PartialEq, Eq, Clone, Copy, Structural)]
pub enum EvalError {
    /// An operation needs integers and got a string.
    TypeMismatch,
    /// Division or remainder by zero.
    DivisionByZero,
    /// An arithmetic result does not fit in 32 signed bits.
    Overflow,
    /// A variable that no binding names.
    VariableNotFound,
    /// A variable whose binding holds no value yet.
    VariableNotInitialized,
    /// A call of a procedure that was never defined.
    ProcedureNotFound,
    /// A call with another number of arguments than the procedure's parameters.
    ArgumentCount { expected: usize, given: usize },
    /// A procedure parameter that is not a bare name (a string literal).
    InvalidParameter,
    /// The turtle refused an operation.
    Turtle(TurtleError),
    /// The step budget ran out.
    StepLimit,
}

/// A procedure as the table keeps it.
pub struct ProcM {
    pub name: Seq<char>,
    pub params: Seq<Seq<char>>,
    pub body: Seq<StmtM>,
}

/// The state that statements act on: the turtle, the scope stack (later
/// entries shadow earlier ones) and the procedure table.
pub struct Machine {
    pub turtle: TurtleView,
    pub stack: Seq<(Seq<char>, Option<ValueM>)>,
    pub procs: Seq<ProcM>,
}

/// What running a statement gives: the machine after it and the steps
/// left, or the error that stopped it.
pub type Outcome = Result<(Machine, nat), EvalError>;

/// The index of the most recent binding of `name` among the first `n`
/// entries of the stack, or -1.
pub open spec fn lookup(stack: Seq<(Seq<char>, Option<ValueM>)>, name: Seq<char>, n: int) -> int
    decreases n,
{
    if n <= 0 {
        -1
    } else if stack[n - 1].0 == name {
        n - 1
    } else {
        lookup(stack, name, n - 1)
    }
}

/// The value of variable `name` on the stack.
pub open spec fn variable_value(stack: Seq<(Seq<char>, Option<ValueM>)>, name: Seq<char>) -> Result<ValueM, EvalError> {
    let i = lookup(stack, name, stack.len() as int);
    if i < 0 {
        Err(EvalError::VariableNotFound)
    } else {
        match stack[i].1 {
            Some(v) => Ok(v),
            None => Err(EvalError::VariableNotInitialized),
        }
    }
}

/// The index of the first procedure from the `i`-th on named `name`, or -1.
pub open spec fn find_proc(procs: Seq<ProcM>, name: Seq<char>, i: int) -> int
    decreases procs.len() - i,
{
    if 0 <= i < procs.len() {
        if procs[i].name == name {
            i
        } else {
            find_proc(procs, name, i + 1)
        }
    } else {
        -1
    }
}

/// The table with `p` in place of the procedure of the same name, or with
/// `p` added.
pub open spec fn define(procs: Seq<ProcM>, p: ProcM) -> Seq<ProcM> {
    let i = find_proc(procs, p.name, 0);
    if i >= 0 {
        procs.update(i, p)
    } else {
        procs.push(p)
    }
}

/// Whether `t` is `word`, ignoring the case of ASCII letters.
pub open spec fn is_word_ignoring_case(t: Seq<char>, word: Seq<char>) -> bool {
    t.map_values(|c: char| ascii_lower(c)) == word
}

/// `a / b` rounded toward zero, as Rust's integer division does.
pub open spec fn div_toward_zero(a: int, b: int) -> int {
    let q = (if a < 0 { -a } else { a }) / (if b < 0 { -b } else { b });
    if (a < 0) != (b < 0) {
        -q
    } else {
        q
    }
}

/// The remainder that goes with `div_toward_zero`, as Rust's `%` gives it.
pub open spec fn rem_toward_zero(a: int, b: int) -> int {
    a - b * div_toward_zero(a, b)
}

pub open spec fn fits(v: int) -> bool {
    i32::MIN <= v <= i32::MAX
}

pub open spec fn checked(v: int) -> Result<i32, EvalError> {
    if fits(v) {
        Ok(v as i32)
    } else {
        Err(EvalError::Overflow)
    }
}

pub open spec fn flag(b: bool) -> i32 {
    if b {
        1
    } else {
        0
    }
}

/// `op` applied to two integers.
pub open spec fn apply(op: Operator, a: i32, b: i32) -> Result<i32, EvalError> {
    match op {
        Operator::Add => checked(a + b),
        Operator::Subtract => checked(a - b),
        Operator::Multiply => checked(a * b),
        Operator::Divide => if b == 0 {
            Err(EvalError::DivisionByZero)
        } else {
            checked(div_toward_zero(a as int, b as int))
        },
        Operator::Modulo => if b == 0 {
            Err(EvalError::DivisionByZero)
        } else if a == i32::MIN && b == -1 {
            Err(EvalError::Overflow)
        } else {
            Ok(rem_toward_zero(a as int, b as int) as i32)
        },
        Operator::And => Ok(flag(a != 0 && b != 0)),
        Operator::Or => Ok(flag(a != 0 || b != 0)),
        Operator::Equal => Ok(flag(a == b)),
        Operator::NotEqual => Ok(flag(a != b)),
        Operator::GreaterThan => Ok(flag(a > b)),
        Operator::LessThan => Ok(flag(a < b)),
    }
}

/// The value of a string literal: `true` and `false`, in any case, are the
/// integers 1 and 0; any other text stays a string.
pub open spec fn literal_value(t: Seq<char>) -> ValueM {
    if is_word_ignoring_case(t, seq!['t', 'r', 'u', 'e']) {
        ValueM::Integer(1)
    } else if is_word_ignoring_case(t, seq!['f', 'a', 'l', 's', 'e']) {
        ValueM::Integer(0)
    } else {
        ValueM::Text(t)
    }
}

/// `op` applied to the values of its operands: the left operand's error
/// first, then the right one's; both must be integers.
pub open spec fn binary_value(
    op: Operator,
    a: Result<ValueM, EvalError>,
    b: Result<ValueM, EvalError>,
) -> Result<ValueM, EvalError> {
    match a {
        Ok(x) => match b {
            Ok(y) => match (x, y) {
                (ValueM::Integer(i), ValueM::Integer(j)) => match apply(op, i, j) {
                    Ok(v) => Ok(ValueM::Integer(v)),
                    Err(e) => Err(e),
                },
                _ => Err(EvalError::TypeMismatch),
            },
            Err(e) => Err(e),
        },
        Err(e) => Err(e),
    }
}

/// The value of `e` in machine `m`. Both operands of a binary operation are
/// evaluated, left first; a string literal that reads `true` or `false` in
/// any case is the integer 1 or 0.
pub open spec fn eval(e: ExprM, m: Machine) -> Result<ValueM, EvalError>
    decreases e,
{
    match e {
        ExprM::Integer(v) => Ok(ValueM::Integer(v)),
        ExprM::Text(t) => Ok(literal_value(t)),
        ExprM::Variable(n) => variable_value(m.stack, n),
        ExprM::Query(q) => Ok(
            ValueM::Integer(
                match q {
                    Query::XCor => m.turtle.x,
                    Query::YCor => m.turtle.y,
                    Query::Heading => m.turtle.heading,
                    Query::Color => m.turtle.pen_color,
                },
            ),
        ),
        ExprM::Binary(op, l, r) => binary_value(op, eval(*l, m), eval(*r, m)),
    }
}

/// The integer value of `e`.
pub open spec fn eval_int(e: ExprM, m: Machine) -> Result<i32, EvalError> {
    match eval(e, m) {
        Ok(ValueM::Integer(v)) => Ok(v),
        Ok(ValueM::Text(_)) => Err(EvalError::TypeMismatch),
        Err(x) => Err(x),
    }
}

/// The values of `args[i..]`, in order.
pub open spec fn eval_all(args: Seq<ExprM>, m: Machine, i: int) -> Result<Seq<ValueM>, EvalError>
    decreases args.len() - i,
{
    if 0 <= i < args.len() {
        match eval(args[i], m) {
            Ok(v) => match eval_all(args, m, i + 1) {
                Ok(vs) => Ok(seq![v] + vs),
                Err(x) => Err(x),
            },
            Err(x) => Err(x),
        }
    } else {
        Ok(seq![])
    }
}

/// The parameter names of a definition: each must be a string literal.
pub open spec fn param_names(params: Seq<ExprM>) -> Option<Seq<Seq<char>>> {
    if forall|i: int| 0 <= i < params.len() ==> #[trigger] params[i] is Text {
        Some(Seq::new(params.len(), |i: int| params[i]->Text_0))
    } else {
        None
    }
}

/// The stack without its top `k` entries (or empty, if it has fewer).
pub open spec fn pop_n(stack: Seq<(Seq<char>, Option<ValueM>)>, k: int) -> Seq<(Seq<char>, Option<ValueM>)> {
    if k < stack.len() {
        stack.subrange(0, stack.len() - k)
    } else {
        seq![]
    }
}

/// The bindings of parameters `names` to `values`.
pub open spec fn bindings(names: Seq<Seq<char>>, values: Seq<ValueM>) -> Seq<(Seq<char>, Option<ValueM>)> {
    Seq::new(names.len(), |j: int| (names[j], Some(values[j])))
}

/// The turtle after command `c` with argument `v`, where `o` holds the
/// answers of the image library to all of the turtle's moves.
pub open spec fn command_effect(c: Command, t: TurtleView, v: i32, o: Replies) -> Result<TurtleView, TurtleError> {
    let reply = next_reply(t, o);
    match c {
        Command::Forward => turtle_move(t, v, reply),
        Command::Back => turtle_move(t, negated(v), reply),
        Command::Left => Ok(TurtleView { heading: normal_heading(t.heading - v), ..t }),
        Command::Right | Command::Turn => Ok(
            TurtleView { heading: normal_heading(t.heading + v), ..t },
        ),
        Command::SetX => turtle_jump(t, v, true, reply),
        Command::SetY => turtle_jump(t, v, false, reply),
        Command::SetHeading => Ok(TurtleView { heading: normal_heading(v as int), ..t }),
        Command::SetPenColor => if 0 <= v < PALETTE_SIZE {
            Ok(TurtleView { pen_color: v, ..t })
        } else {
            Err(TurtleError::InvalidColor(v))
        },
    }
}

/// Running statement `s` on `m` with `fuel` steps.
pub open spec fn run_stmt(s: StmtM, m: Machine, fuel: nat, o: Replies) -> Outcome
    decreases fuel, 1nat,
{
    if fuel == 0 {
        Err(EvalError::StepLimit)
    } else {
        let f = (fuel - 1) as nat;
        match s {
            StmtM::PenUp => Ok((Machine { turtle: TurtleView { pen_down: false, ..m.turtle }, ..m }, f)),
            StmtM::PenDown => Ok((Machine { turtle: TurtleView { pen_down: true, ..m.turtle }, ..m }, f)),
            StmtM::Command(c, e) => match eval_int(e, m) {
                Ok(v) => match command_effect(c, m.turtle, v, o) {
                    Ok(t) => Ok((Machine { turtle: t, ..m }, f)),
                    Err(te) => Err(EvalError::Turtle(te)),
                },
                Err(x) => Err(x),
            },
            StmtM::Make(id, e) => match eval(e, m) {
                Ok(v) => Ok((Machine { stack: m.stack.push((id.0, Some(v))), ..m }, f)),
                Err(x) => Err(x),
            },
            StmtM::AddAssign(id, e) => match eval(e, m) {
                Ok(v) => match variable_value(m.stack, id.0) {
                    Ok(cur) => match (cur, v) {
                        (ValueM::Integer(a), ValueM::Integer(b)) => match checked(a + b) {
                            Ok(sum) => {
                                let i = lookup(m.stack, id.0, m.stack.len() as int);
                                Ok(
                                    (
                                        Machine {
                                            stack: m.stack.update(
                                                i,
                                                (id.0, Some(ValueM::Integer(sum))),
                                            ),
                                            ..m
                                        },
                                        f,
                                    ),
                                )
                            },
                            Err(x) => Err(x),
                        },
                        _ => Err(EvalError::TypeMismatch),
                    },
                    Err(x) => Err(x),
                },
                Err(x) => Err(x),
            },
            StmtM::If(c, b) => match eval_int(c, m) {
                Ok(v) => if v != 0 {
                    run_block(b, 0, m, f, o)
                } else {
                    Ok((m, f))
                },
                Err(x) => Err(x),
            },
            StmtM::While(c, b) => run_while(c, b, m, f, o),
            StmtM::Repeat(c, b) => match eval_int(c, m) {
                Ok(n) => run_repeat(b, if n > 0 { n as nat } else { 0 }, m, f, o),
                Err(x) => Err(x),
            },
            StmtM::Define(id, params, body) => match param_names(params) {
                Some(names) => Ok(
                    (Machine { procs: define(m.procs, ProcM { name: id.0, params: names, body }), ..m }, f),
                ),
                None => Err(EvalError::InvalidParameter),
            },
            StmtM::Call(id, args) => run_call(id.0, args, m, fuel, o),
        }
    }
}

/// Running a call of procedure `name` with arguments `args`, `fuel` steps
/// counted from the call statement's own. The arguments are evaluated in the
/// caller's scope; their bindings are pushed for the body and as many
/// entries are popped after it.
pub open spec fn run_call(name: Seq<char>, args: Seq<ExprM>, m: Machine, fuel: nat, o: Replies) -> Outcome
    decreases fuel, 0nat,
{
    if fuel == 0 {
        Err(EvalError::StepLimit)
    } else {
        let f = (fuel - 1) as nat;
        let i = find_proc(m.procs, name, 0);
        if i < 0 {
            Err(EvalError::ProcedureNotFound)
        } else {
            let p = m.procs[i];
            if p.params.len() != args.len() {
                Err(
                    EvalError::ArgumentCount {
                        expected: p.params.len() as usize,
                        given: args.len() as usize,
                    },
                )
            } else {
                match eval_all(args, m, 0) {
                    Ok(values) => match run_block(
                        p.body,
                        0,
                        Machine { stack: m.stack + bindings(p.params, values), ..m },
                        f,
                        o,
                    ) {
                        Ok((m2, f2)) => Ok(
                            (Machine { stack: pop_n(m2.stack, p.params.len() as int), ..m2 }, f2),
                        ),
                        Err(x) => Err(x),
                    },
                    Err(x) => Err(x),
                }
            }
        }
    }
}

/// Running `b[i..]` in order.
pub open spec fn run_block(b: Seq<StmtM>, i: int, m: Machine, fuel: nat, o: Replies) -> Outcome
    decreases fuel, b.len() - i + 1,
{
    if 0 <= i < b.len() {
        match run_stmt(b[i], m, fuel, o) {
            Ok((m1, f1)) => if f1 <= fuel {
                run_block(b, i + 1, m1, f1, o)
            } else {
                Ok((m1, f1))
            },
            Err(x) => Err(x),
        }
    } else {
        Ok((m, fuel))
    }
}

/// Running `WHILE c [b]`: each pass tests `c` and takes one step.
pub open spec fn run_while(c: ExprM, b: Seq<StmtM>, m: Machine, fuel: nat, o: Replies) -> Outcome
    decreases fuel, 0nat,
{
    if fuel == 0 {
        Err(EvalError::StepLimit)
    } else {
        let f = (fuel - 1) as nat;
        match eval_int(c, m) {
            Ok(v) => if v == 0 {
                Ok((m, f))
            } else {
                match run_block(b, 0, m, f, o) {
                    Ok((m1, f1)) => if f1 <= f {
                        run_while(c, b, m1, f1, o)
                    } else {
                        Ok((m1, f1))
                    },
                    Err(x) => Err(x),
                }
            },
            Err(x) => Err(x),
        }
    }
}

/// Running `b` `k` more times; each pass takes one step.
pub open spec fn run_repeat(b: Seq<StmtM>, k: nat, m: Machine, fuel: nat, o: Replies) -> Outcome
    decreases fuel, 0nat,
{
    if k == 0 {
        Ok((m, fuel))
    } else if fuel == 0 {
        Err(EvalError::StepLimit)
    } else {
        let f = (fuel - 1) as nat;
        match run_block(b, 0, m, f, o) {
            Ok((m1, f1)) => if f1 <= f {
                run_repeat(b, (k - 1) as nat, m1, f1, o)
            } else {
                Ok((m1, f1))
            },
            Err(x) => Err(x),
        }
    }
}

} // verus!
