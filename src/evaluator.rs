//! The evaluator: walks a parsed program and drives the turtle, computing
//! exactly what `crate::semantics` describes.

use vstd::prelude::*;
use crate::ast::{
    block_view, exprs_view, ident_view, Block, Command, ExprM, Expression, Identifier, Operator,
    Statement, StmtM,
};
use crate::semantics::{
    apply, binary_value, bindings, checked, command_effect, define, div_toward_zero, eval,
    eval_all, eval_int, find_proc, is_word_ignoring_case, literal_value, lookup, param_names,
    pop_n, rem_toward_zero, run_block, run_call, run_repeat, run_stmt, run_while, variable_value,
    EvalError, Machine, Outcome, ProcM, ValueM,
};
use crate::text::{lower, to_chars};
use crate::turtle::{extends, turtle_wf, Replies, Turtle};

verus! {

/// A runtime value.
#[derive(Debug, PartialEq)]
pub enum Value {
    Integer(i32),
    Text(String),
}

impl View for Value {
    type V = ValueM;

    open spec fn view(&self) -> ValueM {
        match self {
            Value::Integer(i) => ValueM::Integer(*i),
            Value::Text(s) => ValueM::Text(s@),
        }
    }
}

impl Value {
    /// A copy of this value.
    pub fn copy(&self) -> (r: Value)
        ensures
            r@ == self@,
    {
        match self {
            Value::Integer(i) => Value::Integer(*i),
            Value::Text(s) => Value::Text(s.clone()),
        }
    }
}

pub open spec fn opt_value(o: Option<Value>) -> Option<ValueM> {
    match o {
        Some(v) => Some(v@),
        None => None,
    }
}

/// A defined procedure: its name, its parameter names and its body, which
/// stays in the program it was parsed from.
pub struct Procedure<'a> {
    pub name: String,
    pub parameters: Vec<String>,
    pub body: &'a Block,
}

pub open spec fn stack_view(s: Seq<(String, Option<Value>)>) -> Seq<(Seq<char>, Option<ValueM>)> {
    Seq::new(s.len(), |i: int| (s[i].0@, opt_value(s[i].1)))
}

pub open spec fn names_view(n: Seq<String>) -> Seq<Seq<char>> {
    Seq::new(n.len(), |i: int| n[i]@)
}

pub open spec fn procedure_view(p: Procedure) -> ProcM {
    ProcM { name: p.name@, params: names_view(p.parameters@), body: block_view(p.body@) }
}

pub open spec fn procs_view(p: Seq<Procedure>) -> Seq<ProcM> {
    Seq::new(p.len(), |i: int| procedure_view(p[i]))
}

/// The state of one run: the turtle, the scope stack of variable bindings
/// and the procedure table.
pub struct ProgramState<'a> {
    turtle: Turtle,
    stack: Vec<(String, Option<Value>)>,
    procedures: Vec<Procedure<'a>>,
}

impl<'a> View for ProgramState<'a> {
    type V = Machine;

    closed spec fn view(&self) -> Machine {
        Machine {
            turtle: self.turtle@,
            stack: stack_view(self.stack@),
            procs: procs_view(self.procedures@),
        }
    }
}

impl<'a> ProgramState<'a> {
    pub open spec fn wf(&self) -> bool {
        turtle_wf(self@.turtle)
    }

    /// A state with `turtle`, no variables and no procedures.
    pub fn new(turtle: Turtle) -> (r: ProgramState<'a>)
        requires
            turtle_wf(turtle@),
        ensures
            r@ == (Machine { turtle: turtle@, stack: seq![], procs: seq![] }),
            r.wf(),
    {
        let r = ProgramState { turtle, stack: Vec::new(), procedures: Vec::new() };
        assert(stack_view(r.stack@) =~= seq![]);
        assert(procs_view(r.procedures@) =~= seq![]);
        r
    }

    pub fn turtle(&self) -> (r: &Turtle)
        ensures
            r@ == self@.turtle,
    {
        &self.turtle
    }

    pub fn into_turtle(self) -> (r: Turtle)
        ensures
            r@ == self@.turtle,
    {
        self.turtle
    }

    /// The number of bindings on the scope stack.
    pub fn stack_len(&self) -> (r: usize)
        ensures
            r == self@.stack.len(),
    {
        self.stack.len()
    }

    /// Pushes a binding, which shadows earlier ones of the same name.
    pub fn push(&mut self, name: String, value: Option<Value>)
        ensures
            final(self)@ == (Machine {
                stack: old(self)@.stack.push((name@, opt_value(value))),
                ..old(self)@
            }),
    {
        let ghost (n, v) = (name@, opt_value(value));
        self.stack.push((name, value));
        assert(stack_view(self.stack@) =~= stack_view(old(self).stack@).push((n, v)));
    }

    /// Removes the most recent binding, if there is one.
    pub fn pop(&mut self)
        ensures
            final(self)@ == (Machine { stack: pop_n(old(self)@.stack, 1), ..old(self)@ }),
    {
        self.stack.pop();
        assert(stack_view(self.stack@) =~= pop_n(stack_view(old(self).stack@), 1));
    }

    /// Replaces the value of the most recent binding of `name`, or pushes a
    /// new binding where there is none.
    pub fn set(&mut self, name: String, value: Option<Value>)
        ensures
            ({
                let i = lookup(old(self)@.stack, name@, old(self)@.stack.len() as int);
                final(self)@ == (Machine {
                    stack: if i >= 0 {
                        old(self)@.stack.update(i, (name@, opt_value(value)))
                    } else {
                        old(self)@.stack.push((name@, opt_value(value)))
                    },
                    ..old(self)@
                })
            }),
    {
        let ghost (n, v) = (name@, opt_value(value));
        match self.index_of(&name) {
            Some(i) => {
                self.stack.set(i, (name, value));
                assert(stack_view(self.stack@) =~= stack_view(old(self).stack@).update(
                    i as int,
                    (n, v),
                ));
            },
            None => {
                self.stack.push((name, value));
                assert(stack_view(self.stack@) =~= stack_view(old(self).stack@).push((n, v)));
            },
        }
    }

    /// The position of the most recent binding of `name`.
    fn index_of(&self, name: &String) -> (r: Option<usize>)
        ensures
            r matches Some(j) ==> j == lookup(self@.stack, name@, self@.stack.len() as int) && j
                < self@.stack.len(),
            r is None ==> lookup(self@.stack, name@, self@.stack.len() as int) < 0,
    {
        let mut n = self.stack.len();
        proof {
            lemma_lookup_bounds(self@.stack, name@, n as int);
        }
        while n > 0
            invariant
                n <= self.stack.len(),
                lookup(self@.stack, name@, self@.stack.len() as int) == lookup(
                    self@.stack,
                    name@,
                    n as int,
                ),
            decreases n,
        {
            if self.stack[n - 1].0 == *name {
                return Some(n - 1);
            }
            n -= 1;
        }
        None
    }

    /// The most recent binding of `name`, if there is one.
    pub fn get(&self, name: &String) -> (r: Option<&Option<Value>>)
        ensures
            ({
                let i = lookup(self@.stack, name@, self@.stack.len() as int);
                &&& i < 0 ==> r is None
                &&& i >= 0 ==> (r matches Some(v) && opt_value(*v) == self@.stack[i].1)
            }),
    {
        match self.index_of(name) {
            Some(i) => {
                Some(&self.stack[i].1)
            },
            None => None,
        }
    }

    /// The value of variable `name`, or why it has none.
    pub fn get_error_handled(&self, name: &String) -> (r: Result<Value, EvalError>)
        ensures
            match variable_value(self@.stack, name@) {
                Ok(v) => r matches Ok(rv) && rv@ == v,
                Err(e) => r == Err::<Value, EvalError>(e),
            },
    {
        match self.get(name) {
            Some(Some(v)) => Ok(v.copy()),
            Some(None) => Err(EvalError::VariableNotInitialized),
            None => Err(EvalError::VariableNotFound),
        }
    }

    /// The position in the table of the procedure named `name`.
    fn find_procedure(&self, name: &String) -> (r: Option<usize>)
        ensures
            r matches Some(j) ==> j == find_proc(self@.procs, name@, 0) && j < self@.procs.len(),
            r is None ==> find_proc(self@.procs, name@, 0) < 0,
    {
        let mut i: usize = 0;
        while i < self.procedures.len()
            invariant
                i <= self.procedures.len(),
                find_proc(self@.procs, name@, 0) == find_proc(self@.procs, name@, i as int),
            decreases self.procedures.len() - i,
        {
            if self.procedures[i].name == *name {
                return Some(i);
            }
            i += 1;
        }
        None
    }
}

pub open spec fn result_view(r: Result<Value, EvalError>) -> Result<ValueM, EvalError> {
    match r {
        Ok(v) => Ok(v@),
        Err(e) => Err(e),
    }
}

fn fit(v: i64) -> (r: Result<i32, EvalError>)
    ensures
        r == checked(v as int),
{
    if i32::MIN as i64 <= v && v <= i32::MAX as i64 {
        Ok(v as i32)
    } else {
        Err(EvalError::Overflow)
    }
}

/// `a / b` rounded toward zero.
fn quotient(a: i64, b: i64) -> (q: i64)
    requires
        b != 0,
        -0x8000_0000 <= a <= 0x8000_0000,
        -0x8000_0000 <= b <= 0x8000_0000,
    ensures
        q == div_toward_zero(a as int, b as int),
        -0x8000_0000 <= q <= 0x8000_0000,
{
    let ua: u64 = if a < 0 { (-a) as u64 } else { a as u64 };
    let ub: u64 = if b < 0 { (-b) as u64 } else { b as u64 };
    let uq = ua / ub;
    assert(uq <= ua) by (nonlinear_arith)
        requires
            uq == ua / ub,
            ub >= 1,
    ;
    if (a < 0) != (b < 0) {
        -(uq as i64)
    } else {
        uq as i64
    }
}

/// `op` applied to two integers.
pub fn apply_operator(op: Operator, a: i32, b: i32) -> (r: Result<i32, EvalError>)
    ensures
        r == apply(op, a, b),
{
    let x = a as i64;
    let y = b as i64;
    match op {
        Operator::Add => fit(x + y),
        Operator::Subtract => fit(x - y),
        Operator::Multiply => {
            assert(-0x4000_0000_0000_0000 <= x * y <= 0x4000_0000_0000_0000) by (nonlinear_arith)
                requires
                    -0x8000_0000 <= x <= 0x8000_0000,
                    -0x8000_0000 <= y <= 0x8000_0000,
            ;
            fit(x * y)
        },
        Operator::Divide => if b == 0 {
            Err(EvalError::DivisionByZero)
        } else {
            fit(quotient(x, y))
        },
        Operator::Modulo => if b == 0 {
            Err(EvalError::DivisionByZero)
        } else if a == i32::MIN && b == -1 {
            Err(EvalError::Overflow)
        } else {
            let q = quotient(x, y);
            assert(-0x4000_0000_0000_0000 <= y * q <= 0x4000_0000_0000_0000) by (nonlinear_arith)
                requires
                    -0x8000_0000 <= q <= 0x8000_0000,
                    -0x8000_0000 <= y <= 0x8000_0000,
            ;
            let rem = x - y * q;
            proof {
                lemma_rem_fits(a as int, b as int);
            }
            Ok(rem as i32)
        },
        Operator::And => Ok(if a != 0 && b != 0 { 1 } else { 0 }),
        Operator::Or => Ok(if a != 0 || b != 0 { 1 } else { 0 }),
        Operator::Equal => Ok(if a == b { 1 } else { 0 }),
        Operator::NotEqual => Ok(if a != b { 1 } else { 0 }),
        Operator::GreaterThan => Ok(if a > b { 1 } else { 0 }),
        Operator::LessThan => Ok(if a < b { 1 } else { 0 }),
    }
}

/// A remainder toward zero is smaller than the divisor and takes the sign of
/// the dividend, so it fits where both operands do.
pub proof fn lemma_rem_fits(a: int, b: int)
    requires
        b != 0,
    ensures
        (if rem_toward_zero(a, b) < 0 { -rem_toward_zero(a, b) } else { rem_toward_zero(a, b) })
            < (if b < 0 { -b } else { b }),
        rem_toward_zero(a, b) == 0 || (rem_toward_zero(a, b) < 0) == (a < 0),
        a * 1 == b * div_toward_zero(a, b) + rem_toward_zero(a, b),
{
    let ua = if a < 0 { -a } else { a };
    let ub = if b < 0 { -b } else { b };
    let q = ua / ub;
    let r = ua % ub;
    assert(ua == ub * q + r && 0 <= r < ub) by (nonlinear_arith)
        requires
            ub > 0,
            ua >= 0,
            q == ua / ub,
            r == ua % ub,
    ;
    if a < 0 && b < 0 {
        assert(rem_toward_zero(a, b) == a - b * q);
        assert(a - b * q == -r) by (nonlinear_arith)
            requires
                a == -ua,
                b == -ub,
                ua == ub * q + r,
        ;
    } else if a < 0 {
        assert(rem_toward_zero(a, b) == a - b * (-q));
        assert(a - b * (-q) == -r) by (nonlinear_arith)
            requires
                a == -ua,
                b == ub,
                ua == ub * q + r,
        ;
    } else if b < 0 {
        assert(rem_toward_zero(a, b) == a - b * (-q));
        assert(a - b * (-q) == r) by (nonlinear_arith)
            requires
                a == ua,
                b == -ub,
                ua == ub * q + r,
        ;
    } else {
        assert(rem_toward_zero(a, b) == a - b * q);
        assert(a - b * q == r) by (nonlinear_arith)
            requires
                a == ua,
                b == ub,
                ua == ub * q + r,
        ;
    }
}

/// Whether `t` is `word`, ignoring the case of ASCII letters.
fn is_word(t: &String, word: &Vec<char>) -> (r: bool)
    ensures
        r == is_word_ignoring_case(t@, word@),
{
    let c = to_chars(t.as_str());
    let ghost low = t@.map_values(|ch: char| crate::text::ascii_lower(ch));
    if c.len() != word.len() {
        assert(low.len() != word@.len());
        return false;
    }
    let mut i: usize = 0;
    while i < c.len()
        invariant
            c@ == t@,
            c.len() == word.len(),
            low == t@.map_values(|ch: char| crate::text::ascii_lower(ch)),
            i <= c.len(),
            forall|j: int| 0 <= j < i ==> low[j] == word@[j],
        decreases c.len() - i,
    {
        if lower(c[i]) != word[i] {
            assert(low[i as int] != word@[i as int]);
            return false;
        }
        i += 1;
    }
    assert(low =~= word@);
    true
}

/// The value of a string literal.
fn literal(t: &String) -> (r: Value)
    ensures
        r@ == literal_value(t@),
{
    if is_word(t, &vec!['t', 'r', 'u', 'e']) {
        Value::Integer(1)
    } else if is_word(t, &vec!['f', 'a', 'l', 's', 'e']) {
        Value::Integer(0)
    } else {
        Value::Text(t.clone())
    }
}

fn combine(op: Operator, a: Result<Value, EvalError>, b: Result<Value, EvalError>) -> (r: Result<Value, EvalError>)
    ensures
        result_view(r) == binary_value(op, result_view(a), result_view(b)),
{
    match a {
        Err(e) => Err(e),
        Ok(x) => match b {
            Err(e) => Err(e),
            Ok(y) => match (x, y) {
                (Value::Integer(i), Value::Integer(j)) => match apply_operator(op, i, j) {
                    Ok(v) => Ok(Value::Integer(v)),
                    Err(e) => Err(e),
                },
                _ => Err(EvalError::TypeMismatch),
            },
        },
    }
}

/// Evaluates `expr` in `state`.
pub fn evaluate_expression(expr: &Expression, state: &ProgramState) -> (r: Result<Value, EvalError>)
    ensures
        result_view(r) == eval(expr@, state@),
    decreases expr,
{
    match expr {
        Expression::Addition(l, r) => combine(
            Operator::Add,
            evaluate_expression(&**l, state),
            evaluate_expression(&**r, state),
        ),
        Expression::Subtraction(l, r) => combine(
            Operator::Subtract,
            evaluate_expression(&**l, state),
            evaluate_expression(&**r, state),
        ),
        Expression::Multiplication(l, r) => combine(
            Operator::Multiply,
            evaluate_expression(&**l, state),
            evaluate_expression(&**r, state),
        ),
        Expression::Division(l, r) => combine(
            Operator::Divide,
            evaluate_expression(&**l, state),
            evaluate_expression(&**r, state),
        ),
        Expression::Modulo(l, r) => combine(
            Operator::Modulo,
            evaluate_expression(&**l, state),
            evaluate_expression(&**r, state),
        ),
        Expression::And(l, r) => combine(
            Operator::And,
            evaluate_expression(&**l, state),
            evaluate_expression(&**r, state),
        ),
        Expression::Or(l, r) => combine(
            Operator::Or,
            evaluate_expression(&**l, state),
            evaluate_expression(&**r, state),
        ),
        Expression::Equals(l, r) => combine(
            Operator::Equal,
            evaluate_expression(&**l, state),
            evaluate_expression(&**r, state),
        ),
        Expression::NotEquals(l, r) => combine(
            Operator::NotEqual,
            evaluate_expression(&**l, state),
            evaluate_expression(&**r, state),
        ),
        Expression::GreaterThan(l, r) => combine(
            Operator::GreaterThan,
            evaluate_expression(&**l, state),
            evaluate_expression(&**r, state),
        ),
        Expression::LessThan(l, r) => combine(
            Operator::LessThan,
            evaluate_expression(&**l, state),
            evaluate_expression(&**r, state),
        ),
        Expression::QueryXCor => Ok(Value::Integer(state.turtle.xcor())),
        Expression::QueryYCor => Ok(Value::Integer(state.turtle.ycor())),
        Expression::QueryHeading => Ok(Value::Integer(state.turtle.heading())),
        Expression::QueryColor => Ok(Value::Integer(state.turtle.color())),
        Expression::VariableReference(n) => state.get_error_handled(n),
        Expression::StringLiteral(t) => Ok(literal(t)),
        Expression::IntegerLiteral(v) => Ok(Value::Integer(*v)),
    }
}

/// The integer value of `expr`.
fn evaluate_integer(expr: &Expression, state: &ProgramState) -> (r: Result<i32, EvalError>)
    ensures
        r == eval_int(expr@, state@),
{
    match evaluate_expression(expr, state) {
        Ok(Value::Integer(v)) => Ok(v),
        Ok(Value::Text(_)) => Err(EvalError::TypeMismatch),
        Err(e) => Err(e),
    }
}

/// The executable result `r`, with the state `after`, computes the outcome
/// `m`: the same machine and the same steps left, or the same error.
pub open spec fn outcome_agrees(r: Result<u64, EvalError>, after: Machine, m: Outcome) -> bool {
    match m {
        Ok((m1, f1)) => r matches Ok(f) && f == f1 && after == m1,
        Err(e) => r == Err::<u64, EvalError>(e),
    }
}

/// The answers the turtle has received only grow.
pub open spec fn replies_grow(before: Machine, after: Machine) -> bool {
    extends(before.turtle.replies, after.turtle.replies)
}

/// A call that fails before it runs anything: no such procedure, or another
/// number of arguments than its parameters.
pub open spec fn call_refused(name: Seq<char>, args: Seq<ExprM>, m: Machine) -> bool {
    let i = find_proc(m.procs, name, 0);
    i < 0 || m.procs[i].params.len() != args.len()
}

pub proof fn lemma_extends_trans(a: Replies, b: Replies, c: Replies)
    requires
        extends(a, b),
        extends(b, c),
    ensures
        extends(a, c),
{
    assert forall|i: int| 0 <= i < a.len() implies #[trigger] a[i] == c[i] by {
        assert(a[i] == b[i]);
        assert(b[i] == c[i]);
    }
}

pub open spec fn values_view(v: Seq<Value>) -> Seq<ValueM> {
    Seq::new(v.len(), |i: int| v[i]@)
}

/// Runs a turtle command whose argument is the integer value of `e`.
fn run_command<'a>(c: Command, e: &Expression, state: &mut ProgramState<'a>) -> (r: Result<(), EvalError>)
    requires
        old(state).wf(),
    ensures
        replies_grow(old(state)@, final(state)@),
        forall|o: Replies|
            extends(final(state)@.turtle.replies, o) ==> match eval_int(e@, old(state)@) {
                Ok(v) => match command_effect(c, old(state)@.turtle, v, o) {
                    Ok(t) => r is Ok && final(state)@ == (Machine { turtle: t, ..old(state)@ }),
                    Err(te) => r == Err::<(), EvalError>(EvalError::Turtle(te)),
                },
                Err(x) => r == Err::<(), EvalError>(x),
            },
        r is Ok ==> final(state).wf(),
{
    let v = match evaluate_integer(e, state) {
        Ok(v) => v,
        Err(x) => return Err(x),
    };
    let done = match c {
        Command::Forward => state.turtle.forward(v),
        Command::Back => state.turtle.back(v),
        Command::Left => {
            state.turtle.left(v);
            Ok(())
        },
        Command::Right | Command::Turn => {
            state.turtle.right(v);
            Ok(())
        },
        Command::SetX => state.turtle.set_x(v),
        Command::SetY => state.turtle.set_y(v),
        Command::SetHeading => {
            state.turtle.set_heading(v);
            Ok(())
        },
        Command::SetPenColor => state.turtle.set_pen_color(v),
    };
    proof {
        assert(extends(state@.turtle.replies, state@.turtle.replies));
    }
    match done {
        Ok(()) => Ok(()),
        Err(te) => Err(EvalError::Turtle(te)),
    }
}

/// Adds the integer value of `e` to the most recent binding of `id`.
fn add_assign<'a>(id: &Identifier, e: &Expression, state: &mut ProgramState<'a>) -> (r: Result<(), EvalError>)
    requires
        old(state).wf(),
    ensures
        outcome_agrees(
            match r {
                Ok(()) => Ok(0u64),
                Err(x) => Err(x),
            },
            final(state)@,
            match run_stmt(StmtM::AddAssign(ident_view(*id), e@), old(state)@, 1, seq![]) {
                Ok((m, _)) => Ok((m, 0nat)),
                Err(x) => Err(x),
            },
        ),
        r is Ok ==> final(state).wf(),
        r is Err ==> final(state)@ == old(state)@,
{
    let v = match evaluate_expression(e, state) {
        Ok(v) => v,
        Err(x) => return Err(x),
    };
    let cur = match state.get_error_handled(&id.0) {
        Ok(c) => c,
        Err(x) => return Err(x),
    };
    match (cur, v) {
        (Value::Integer(a), Value::Integer(b)) => {
            let sum = match fit(a as i64 + b as i64) {
                Ok(s) => s,
                Err(x) => return Err(x),
            };
            state.set(id.0.clone(), Some(Value::Integer(sum)));
            Ok(())
        },
        _ => Err(EvalError::TypeMismatch),
    }
}

/// Enters procedure `body` under `name`, with the names of `parameters`.
fn define_procedure<'a>(
    name: &Identifier,
    parameters: &Vec<Expression>,
    body: &'a Block,
    state: &mut ProgramState<'a>,
) -> (r: Result<(), EvalError>)
    requires
        old(state).wf(),
    ensures
        match param_names(exprs_view(parameters@)) {
            Some(names) => r is Ok && final(state)@ == (Machine {
                procs: define(
                    old(state)@.procs,
                    ProcM { name: name.0@, params: names, body: block_view(body@) },
                ),
                ..old(state)@
            }),
            None => r == Err::<(), EvalError>(EvalError::InvalidParameter),
        },
        r is Ok ==> final(state).wf(),
        r is Err ==> final(state)@ == old(state)@,
{
    let ghost ps = exprs_view(parameters@);
    let mut names: Vec<String> = Vec::new();
    let mut j: usize = 0;
    while j < parameters.len()
        invariant
            j <= parameters.len(),
            ps == exprs_view(parameters@),
            forall|x: int| 0 <= x < j ==> #[trigger] ps[x] is Text,
            names_view(names@) =~= Seq::new(j as nat, |x: int| ps[x]->Text_0),
        decreases parameters.len() - j,
    {
        match &parameters[j] {
            Expression::StringLiteral(n) => {
                let ghost old_names = names@;
                names.push(n.clone());
                assert(ps[j as int] == ExprM::Text(n@));
                assert(names_view(names@) =~= names_view(old_names).push(n@));
            },
            _ => {
                assert(!(ps[j as int] is Text));
                return Err(EvalError::InvalidParameter);
            },
        }
        j += 1;
    }
    assert(names_view(names@) =~= Seq::new(ps.len(), |x: int| ps[x]->Text_0));
    assert(param_names(ps) == Some(names_view(names@))) by {
        assert(Seq::new(ps.len(), |x: int| ps[x]->Text_0) =~= names_view(names@));
    }
    let ghost p = ProcM { name: name.0@, params: names_view(names@), body: block_view(body@) };
    let proc = Procedure { name: name.0.clone(), parameters: names, body };
    match state.find_procedure(&name.0) {
        Some(i) => {
            state.procedures.set(i, proc);
            assert(procs_view(state.procedures@) =~= procs_view(old(state).procedures@).update(
                i as int,
                p,
            ));
        },
        None => {
            state.procedures.push(proc);
            assert(procs_view(state.procedures@) =~= procs_view(old(state).procedures@).push(p));
        },
    }
    Ok(())
}

/// Runs statement `stmt` with `fuel` steps; answers the steps left.
pub fn evaluate_statement<'a>(stmt: &'a Statement, state: &mut ProgramState<'a>, fuel: u64) -> (r: Result<u64, EvalError>)
    requires
        old(state).wf(),
    ensures
        replies_grow(old(state)@, final(state)@),
        forall|o: Replies|
            extends(final(state)@.turtle.replies, o) ==> outcome_agrees(
                r,
                final(state)@,
                run_stmt(stmt@, old(state)@, fuel as nat, o),
            ),
        r matches Ok(f) ==> f < fuel,
        r is Ok ==> final(state).wf(),
        r is Err && (stmt@ is Make || stmt@ is AddAssign || stmt@ is Define) ==> final(state)@
            == old(state)@,
        stmt@ matches StmtM::Call(id, args) ==> (call_refused(id.0, args, old(state)@)
            ==> final(state)@ == old(state)@),
    decreases fuel, 1nat,
{
    if fuel == 0 {
        return Err(EvalError::StepLimit);
    }
    let f = fuel - 1;
    let done = match stmt {
        Statement::PenUp => {
            state.turtle.penup();
            Ok(())
        },
        Statement::PenDown => {
            state.turtle.pendown();
            Ok(())
        },
        Statement::Forward(e) => run_command(Command::Forward, e, state),
        Statement::Back(e) => run_command(Command::Back, e, state),
        Statement::Left(e) => run_command(Command::Left, e, state),
        Statement::Right(e) => run_command(Command::Right, e, state),
        Statement::Turn(e) => run_command(Command::Turn, e, state),
        Statement::SetX(e) => run_command(Command::SetX, e, state),
        Statement::SetY(e) => run_command(Command::SetY, e, state),
        Statement::SetHeading(e) => run_command(Command::SetHeading, e, state),
        Statement::SetPenColor(e) => run_command(Command::SetPenColor, e, state),
        Statement::Make(id, e) => match evaluate_expression(e, state) {
            Ok(v) => {
                state.push(id.0.clone(), Some(v));
                Ok(())
            },
            Err(x) => Err(x),
        },
        Statement::AddAssign(id, e) => add_assign(id, e, state),
        Statement::ProcedureDefinition { name, parameters, body } => define_procedure(
            name,
            parameters,
            body,
            state,
        ),
        Statement::If(c, b) => {
            return match evaluate_integer(c, state) {
                Ok(v) => if v != 0 {
                    evaluate_ast(&**b, state, f)
                } else {
                    Ok(f)
                },
                Err(x) => Err(x),
            };
        },
        Statement::While(c, b) => {
            return evaluate_while(c, &**b, state, f);
        },
        Statement::Repeat(c, b) => {
            return match evaluate_integer(c, state) {
                Ok(n) => evaluate_repeat(&**b, n, state, f),
                Err(x) => Err(x),
            };
        },
        Statement::ProcedureCall { name, arguments } => {
            return call_procedure(name, arguments, state, fuel);
        },
    };
    match done {
        Ok(()) => Ok(f),
        Err(x) => Err(x),
    }
}

/// Runs the statements of `block` in order with `fuel` steps; answers the
/// steps left.
pub fn evaluate_ast<'a>(block: &'a Block, state: &mut ProgramState<'a>, fuel: u64) -> (r: Result<u64, EvalError>)
    requires
        old(state).wf(),
    ensures
        replies_grow(old(state)@, final(state)@),
        forall|o: Replies|
            extends(final(state)@.turtle.replies, o) ==> outcome_agrees(
                r,
                final(state)@,
                run_block(block_view(block@), 0, old(state)@, fuel as nat, o),
            ),
        r matches Ok(f) ==> f <= fuel,
        r is Ok ==> final(state).wf(),
    decreases fuel, 2nat,
{
    let ghost b = block_view(block@);
    let mut f = fuel;
    let mut i: usize = 0;
    while i < block.len()
        invariant
            state.wf(),
            f <= fuel,
            i <= block.len(),
            b == block_view(block@),
            replies_grow(old(state)@, state@),
            forall|o: Replies|
                extends(state@.turtle.replies, o) ==> run_block(b, 0, old(state)@, fuel as nat, o)
                    == run_block(b, i as int, state@, f as nat, o),
        decreases block.len() - i,
    {
        let ghost prev = state@;
        let r = evaluate_statement(&block[i], state, f);
        proof {
            lemma_extends_trans(old(state)@.turtle.replies, prev.turtle.replies, state@.turtle.replies);
            assert forall|o: Replies| extends(state@.turtle.replies, o) implies #[trigger] run_block(
                b,
                0,
                old(state)@,
                fuel as nat,
                o,
            ) == (match r {
                Ok(f1) => run_block(b, i + 1, state@, f1 as nat, o),
                Err(x) => Err(x),
            }) by {
                lemma_extends_trans(prev.turtle.replies, state@.turtle.replies, o);
            }
        }
        match r {
            Ok(f1) => {
                f = f1;
            },
            Err(x) => return Err(x),
        }
        i += 1;
    }
    Ok(f)
}

/// Runs `WHILE c [body]` with `fuel` steps.
fn evaluate_while<'a>(c: &Expression, body: &'a Block, state: &mut ProgramState<'a>, fuel: u64) -> (r: Result<u64, EvalError>)
    requires
        old(state).wf(),
    ensures
        replies_grow(old(state)@, final(state)@),
        forall|o: Replies|
            extends(final(state)@.turtle.replies, o) ==> outcome_agrees(
                r,
                final(state)@,
                run_while(c@, block_view(body@), old(state)@, fuel as nat, o),
            ),
        r matches Ok(f) ==> f <= fuel,
        r is Ok ==> final(state).wf(),
    decreases fuel, 3nat,
{
    let ghost b = block_view(body@);
    let mut g = fuel;
    loop
        invariant
            state.wf(),
            g <= fuel,
            b == block_view(body@),
            replies_grow(old(state)@, state@),
            forall|o: Replies|
                extends(state@.turtle.replies, o) ==> run_while(c@, b, old(state)@, fuel as nat, o)
                    == run_while(c@, b, state@, g as nat, o),
        decreases g,
    {
        if g == 0 {
            return Err(EvalError::StepLimit);
        }
        g = g - 1;
        match evaluate_integer(c, state) {
            Ok(v) => if v == 0 {
                return Ok(g);
            },
            Err(x) => return Err(x),
        }
        let ghost prev = state@;
        let ghost g0 = g;
        let r = evaluate_ast(body, state, g);
        proof {
            lemma_extends_trans(old(state)@.turtle.replies, prev.turtle.replies, state@.turtle.replies);
            assert forall|o: Replies| extends(state@.turtle.replies, o) implies #[trigger] run_while(
                c@,
                b,
                old(state)@,
                fuel as nat,
                o,
            ) == (match r {
                Ok(g1) => run_while(c@, b, state@, g1 as nat, o),
                Err(x) => Err(x),
            }) by {
                lemma_extends_trans(prev.turtle.replies, state@.turtle.replies, o);
            }
        }
        match r {
            Ok(g1) => {
                g = g1;
            },
            Err(x) => return Err(x),
        }
    }
}

/// Runs `body` `n` times (none, where `n` is not positive) with `fuel` steps.
fn evaluate_repeat<'a>(body: &'a Block, n: i32, state: &mut ProgramState<'a>, fuel: u64) -> (r: Result<u64, EvalError>)
    requires
        old(state).wf(),
    ensures
        replies_grow(old(state)@, final(state)@),
        forall|o: Replies| extends(final(state)@.turtle.replies, o) ==> outcome_agrees(
            r,
            final(state)@,
            run_repeat(block_view(body@), if n > 0 { n as nat } else { 0 }, old(state)@, fuel as nat, o),
        ),
        r matches Ok(f) ==> f <= fuel,
        r is Ok ==> final(state).wf(),
    decreases fuel, 3nat,
{
    let ghost b = block_view(body@);
    let ghost n0: nat = if n > 0 { n as nat } else { 0 };
    let mut k: u32 = if n > 0 { n as u32 } else { 0 };
    let mut g = fuel;
    loop
        invariant
            state.wf(),
            g <= fuel,
            b == block_view(body@),
            replies_grow(old(state)@, state@),
            forall|o: Replies|
                extends(state@.turtle.replies, o) ==> run_repeat(
                    b,
                    n0,
                    old(state)@,
                    fuel as nat,
                    o,
                ) == run_repeat(b, k as nat, state@, g as nat, o),
            n0 == (if n > 0 { n as nat } else { 0 }),
        decreases g,
    {
        if k == 0 {
            return Ok(g);
        }
        if g == 0 {
            return Err(EvalError::StepLimit);
        }
        g = g - 1;
        let ghost prev = state@;
        let r = evaluate_ast(body, state, g);
        proof {
            lemma_extends_trans(old(state)@.turtle.replies, prev.turtle.replies, state@.turtle.replies);
            assert forall|o: Replies| extends(state@.turtle.replies, o) implies #[trigger] run_repeat(
                b,
                n0,
                old(state)@,
                fuel as nat,
                o,
            ) == (match r {
                Ok(g1) => run_repeat(b, (k - 1) as nat, state@, g1 as nat, o),
                Err(x) => Err(x),
            }) by {
                lemma_extends_trans(prev.turtle.replies, state@.turtle.replies, o);
            }
        }
        match r {
            Ok(g1) => {
                g = g1;
            },
            Err(x) => return Err(x),
        }
        k = k - 1;
    }
}

/// The values of `arguments`, in order, in `state`.
fn evaluate_arguments(arguments: &Vec<Expression>, state: &ProgramState) -> (r: Result<Vec<Value>, EvalError>)
    ensures
        match eval_all(exprs_view(arguments@), state@, 0) {
            Ok(vs) => r matches Ok(v) && values_view(v@) == vs,
            Err(e) => r == Err::<Vec<Value>, EvalError>(e),
        },
{
    let ghost args = exprs_view(arguments@);
    let mut values: Vec<Value> = Vec::new();
    let mut j: usize = 0;
    assert(values_view(values@) =~= seq![]);
    while j < arguments.len()
        invariant
            j <= arguments.len(),
            args == exprs_view(arguments@),
            eval_all(args, state@, 0) == (match eval_all(args, state@, j as int) {
                Ok(vs) => Ok(values_view(values@) + vs),
                Err(x) => Err::<Seq<ValueM>, EvalError>(x),
            }),
        decreases arguments.len() - j,
    {
        match evaluate_expression(&arguments[j], state) {
            Ok(v) => {
                let ghost before = values@;
                let ghost vm = v@;
                values.push(v);
                proof {
                    assert(values_view(values@) =~= values_view(before).push(vm));
                    if let Ok(vs) = eval_all(args, state@, j + 1) {
                        assert(values_view(before) + (seq![vm] + vs) =~= values_view(values@) + vs);
                    }
                }
            },
            Err(x) => return Err(x),
        }
        j += 1;
    }
    assert(values_view(values@) + seq![] =~= values_view(values@));
    Ok(values)
}

/// Pushes the bindings of the parameters of procedure `i` to `values`.
fn bind_parameters<'a>(state: &mut ProgramState<'a>, i: usize, values: &Vec<Value>)
    requires
        old(state).wf(),
        i < old(state)@.procs.len(),
        old(state)@.procs[i as int].params.len() == values.len(),
    ensures
        final(state).wf(),
        final(state)@ == (Machine {
            stack: old(state)@.stack + bindings(
                old(state)@.procs[i as int].params,
                values_view(values@),
            ),
            ..old(state)@
        }),
{
    let ghost m0 = state@;
    let ghost p = m0.procs[i as int];
    let ghost vals = values_view(values@);
    let k = values.len();
    let mut j: usize = 0;
    assert(m0.stack + bindings(p.params.take(0), vals.take(0)) =~= m0.stack);
    while j < k
        invariant
            j <= k,
            k == p.params.len(),
            k == values.len(),
            vals == values_view(values@),
            state.wf(),
            i < state.procedures.len(),
            procs_view(state.procedures@) == m0.procs,
            p == m0.procs[i as int],
            state@ == (Machine {
                stack: m0.stack + bindings(p.params.take(j as int), vals.take(j as int)),
                ..m0
            }),
        decreases k - j,
    {
        assert(procedure_view(state.procedures@[i as int]) == p);
        let n = state.procedures[i].parameters[j].clone();
        let v = values[j].copy();
        let ghost before = state@.stack;
        state.push(n, Some(v));
        assert(procs_view(state.procedures@).len() == state.procedures@.len());
        assert(m0.stack + bindings(p.params.take(j + 1), vals.take(j + 1)) =~= before.push(
            (p.params[j as int], Some(vals[j as int])),
        ));
        j += 1;
    }
    assert(p.params.take(k as int) =~= p.params);
    assert(vals.take(k as int) =~= vals);
}

/// Removes the top `k` bindings.
fn pop_bindings<'a>(state: &mut ProgramState<'a>, k: usize)
    requires
        old(state).wf(),
    ensures
        final(state).wf(),
        final(state)@ == (Machine { stack: pop_n(old(state)@.stack, k as int), ..old(state)@ }),
{
    let ghost m2 = state@;
    let mut j: usize = 0;
    assert(pop_n(m2.stack, 0) =~= m2.stack);
    while j < k
        invariant
            j <= k,
            state.wf(),
            state@ == (Machine { stack: pop_n(m2.stack, j as int), ..m2 }),
        decreases k - j,
    {
        state.pop();
        assert(pop_n(pop_n(m2.stack, j as int), 1) =~= pop_n(m2.stack, j + 1));
        j += 1;
    }
}

/// Calls procedure `name` with the values of `arguments`, with `fuel` steps.
fn call_procedure<'a>(
    name: &Identifier,
    arguments: &Vec<Expression>,
    state: &mut ProgramState<'a>,
    fuel: u64,
) -> (r: Result<u64, EvalError>)
    requires
        old(state).wf(),
        fuel >= 1,
    ensures
        replies_grow(old(state)@, final(state)@),
        forall|o: Replies|
            extends(final(state)@.turtle.replies, o) ==> outcome_agrees(
                r,
                final(state)@,
                run_call(name.0@, exprs_view(arguments@), old(state)@, fuel as nat, o),
            ),
        call_refused(name.0@, exprs_view(arguments@), old(state)@) ==> final(state)@ == old(state)@,
        r matches Ok(f) ==> f < fuel,
        r is Ok ==> final(state).wf(),
    decreases fuel, 0nat,
{
    let ghost m0 = state@;
    let ghost args = exprs_view(arguments@);
    let i = match state.find_procedure(&name.0) {
        Some(i) => i,
        None => return Err(EvalError::ProcedureNotFound),
    };
    let body: &'a Block = state.procedures[i].body;
    let k = state.procedures[i].parameters.len();
    let ghost p = m0.procs[i as int];
    assert(procedure_view(state.procedures@[i as int]) == p);
    assert(block_view(body@) == p.body && k == p.params.len());
    if k != arguments.len() {
        return Err(EvalError::ArgumentCount { expected: k, given: arguments.len() });
    }
    let values = match evaluate_arguments(arguments, state) {
        Ok(v) => v,
        Err(x) => return Err(x),
    };
    proof {
        lemma_eval_all_len(args, m0, 0);
        assert(values_view(values@).len() == values.len());
    }
    bind_parameters(state, i, &values);
    let ghost bound = state@;
    let f2 = match evaluate_ast(body, state, fuel - 1) {
        Ok(f2) => f2,
        Err(x) => return Err(x),
    };
    let ghost m2 = state@;
    pop_bindings(state, k);
    assert(state@.turtle == m2.turtle);
    Ok(f2)
}

/// Runs program `ast` on `turtle` with a budget of `fuel` steps, and hands
/// back the turtle.
pub fn evaluate_program(turtle: Turtle, ast: Block, fuel: u64) -> (r: Result<Turtle, EvalError>)
    requires
        turtle_wf(turtle@),
    ensures
        r matches Ok(t) ==> forall|o: Replies|
            extends(t@.replies, o) ==> (run_block(
                block_view(ast@),
                0,
                Machine { turtle: turtle@, stack: seq![], procs: seq![] },
                fuel as nat,
                o,
            ) matches Ok((m, _)) && m.turtle == t@),
        r matches Err(e) ==> exists|o: Replies|
            run_block(
                block_view(ast@),
                0,
                Machine { turtle: turtle@, stack: seq![], procs: seq![] },
                fuel as nat,
                o,
            ) == Err::<(Machine, nat), EvalError>(e),
{
    let mut state = ProgramState::new(turtle);
    let r = evaluate_ast(&ast, &mut state, fuel);
    proof {
        let o = state@.turtle.replies;
        assert(extends(o, o));
    }
    match r {
        Ok(_) => Ok(state.into_turtle()),
        Err(e) => Err(e),
    }
}

pub proof fn lemma_eval_all_len(args: Seq<ExprM>, m: Machine, i: int)
    requires
        0 <= i <= args.len(),
    ensures
        eval_all(args, m, i) matches Ok(vs) ==> vs.len() == args.len() - i,
    decreases args.len() - i,
{
    if i < args.len() {
        lemma_eval_all_len(args, m, i + 1);
    }
}

proof fn lemma_lookup_bounds(stack: Seq<(Seq<char>, Option<ValueM>)>, name: Seq<char>, n: int)
    requires
        n <= stack.len(),
    ensures
        -1 <= lookup(stack, name, n) < if n > 0 { n } else { 0 },
    decreases n,
{
    if n > 0 {
        lemma_lookup_bounds(stack, name, n - 1);
    }
}

} // verus!
