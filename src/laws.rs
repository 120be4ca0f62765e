//! Properties that relate several parts of the language, proved over the
//! grammar and the semantics.

use vstd::prelude::*;
use crate::ast::{Command, ExprM, IdentM, Operator, StmtM};
use crate::evaluator::{lemma_eval_all_len, lemma_rem_fits};
use crate::grammar::{
    call, comment, identifier, keyword_at, keyword_from, keyword_order, keyword_text,
    lemma_run_end, matches_at, program, program_items, run_end, statement, statement_check,
    CharClass, ParseError,
};
use crate::semantics::{
    bindings, div_toward_zero, eval, eval_all, eval_int, find_proc, lookup, pop_n, run_block,
    command_effect, run_call, run_stmt, variable_value, EvalError, Machine, ValueM,
};
use crate::turtle::{next_reply, Replies, TurtleView};
use crate::text::is_space;

verus! {

/// Whether `s[p..]` holds only whitespace and comments, each comment being
/// `//`, text without line breaks, and a line ending.
pub open spec fn blank_from(s: Seq<char>, p: int) -> bool
    decreases s.len() - p,
{
    if p < 0 || p >= s.len() {
        true
    } else if is_space(s[p]) {
        blank_from(s, p + 1)
    } else if p + 1 < s.len() && s[p] == '/' && s[p + 1] == '/' {
        let e = run_end(s, p + 2, s.len() as int, CharClass::Line);
        proof {
            lemma_run_end(s, p + 2, s.len() as int, CharClass::Line);
        }
        if e < s.len() && s[e] == '\n' {
            blank_from(s, e + 1)
        } else if e + 1 < s.len() && s[e] == '\r' && s[e + 1] == '\n' {
            blank_from(s, e + 2)
        } else {
            false
        }
    } else {
        false
    }
}

proof fn lemma_no_keyword_at_end(s: Seq<char>, i: int)
    requires
        0 <= i <= keyword_order().len(),
    ensures
        keyword_from(s, s.len() as int, s.len() as int, i) is None,
    decreases keyword_order().len() - i,
{
    if i < keyword_order().len() {
        let k = keyword_order()[i];
        assert(keyword_text(k).len() > 0) by {
            match k {
                _ => {},
            }
        }
        assert(!matches_at(s, s.len() as int, s.len() as int, keyword_text(k), true));
        lemma_no_keyword_at_end(s, i + 1);
    }
}

/// No statement matches at the end of the input.
proof fn lemma_no_statement_at_end(s: Seq<char>)
    ensures
        statement(s, s.len() as int, s.len() as int) == Err::<(int, StmtM), ParseError>(
            ParseError::NoMatch,
        ),
{
    let n = s.len() as int;
    lemma_no_keyword_at_end(s, 0);
    assert(keyword_at(s, n, n) is None);
    assert(statement_check(s, n, n) == Ok::<(), ParseError>(()));
    assert(run_end(s, n, n, CharClass::Word) == n);
    assert(identifier(s, n, n) is Err);
    assert(call(s, n, n) == Err::<(int, StmtM), ParseError>(ParseError::NoMatch));
}

proof fn lemma_blank_skips_spaces(s: Seq<char>, p: int)
    requires
        0 <= p <= s.len(),
        blank_from(s, p),
    ensures
        blank_from(s, run_end(s, p, s.len() as int, CharClass::Space)),
    decreases s.len() - p,
{
    if p < s.len() && is_space(s[p]) {
        lemma_blank_skips_spaces(s, p + 1);
    }
}

proof fn lemma_blank_items(s: Seq<char>, p: int)
    requires
        0 <= p <= s.len(),
        blank_from(s, p),
    ensures
        program_items(s, p, s.len() as int) matches Ok((t, b)) && b.len() == 0 && run_end(
            s,
            t,
            s.len() as int,
            CharClass::Space,
        ) == s.len(),
    decreases s.len() - p,
{
    let n = s.len() as int;
    lemma_run_end(s, p, n, CharClass::Space);
    let q = run_end(s, p, n, CharClass::Space);
    lemma_blank_skips_spaces(s, p);
    if q == n {
        assert(comment(s, q, n) is Err);
        lemma_no_statement_at_end(s);
    } else {
        assert(!is_space(s[q]));
        lemma_run_end(s, q + 2, n, CharClass::Line);
        let e = run_end(s, q + 2, n, CharClass::Line);
        assert(matches_at(s, q, n, seq!['/', '/'], false));
        if e < n && s[e] == '\n' {
            lemma_blank_items(s, e + 1);
        } else {
            lemma_blank_items(s, e + 2);
        }
    }
}

/// A program made only of whitespace and comments parses to an empty block.
pub proof fn law_comments_parse_to_nothing(s: Seq<char>)
    requires
        blank_from(s, 0),
    ensures
        program(s) == Ok::<Seq<StmtM>, ParseError>(seq![]),
{
    lemma_blank_items(s, 0);
    if let Ok((t, b)) = program_items(s, 0, s.len() as int) {
        assert(b =~= seq![]);
    }
}

pub open spec fn literal_operation(op: Operator, a: i32, b: i32) -> ExprM {
    ExprM::Binary(op, Box::new(ExprM::Integer(a)), Box::new(ExprM::Integer(b)))
}

pub open spec fn abs(v: int) -> int {
    if v < 0 {
        -v
    } else {
        v
    }
}

/// Division and remainder are Rust's integer division and remainder: the
/// quotient rounds toward zero, the remainder is smaller than the divisor
/// and has the sign of the dividend, and together they rebuild the dividend.
/// Both fail with a division by zero on a zero divisor, whatever the
/// dividend, and with an overflow on `i32::MIN` and `-1`.
pub proof fn law_division(a: i32, b: i32, m: Machine)
    ensures
        b == 0 ==> eval(literal_operation(Operator::Divide, a, b), m) == Err::<ValueM, EvalError>(
            EvalError::DivisionByZero,
        ) && eval(literal_operation(Operator::Modulo, a, b), m) == Err::<ValueM, EvalError>(
            EvalError::DivisionByZero,
        ),
        b == -1 && a == i32::MIN ==> eval(literal_operation(Operator::Divide, a, b), m) == Err::<
            ValueM,
            EvalError,
        >(EvalError::Overflow) && eval(literal_operation(Operator::Modulo, a, b), m) == Err::<
            ValueM,
            EvalError,
        >(EvalError::Overflow),
        b != 0 && !(b == -1 && a == i32::MIN) ==> {
            &&& eval(literal_operation(Operator::Divide, a, b), m) matches Ok(ValueM::Integer(q))
            &&& eval(literal_operation(Operator::Modulo, a, b), m) matches Ok(ValueM::Integer(r))
            &&& a == b * q + r
            &&& abs(r as int) < abs(b as int)
            &&& (r == 0 || (r < 0) == (a < 0))
            &&& abs(q as int) * abs(b as int) <= abs(a as int)
        },
{
    assert(eval(ExprM::Integer(a), m) == Ok::<ValueM, EvalError>(ValueM::Integer(a)));
    assert(eval(ExprM::Integer(b), m) == Ok::<ValueM, EvalError>(ValueM::Integer(b)));
    if b != 0 {
        lemma_rem_fits(a as int, b as int);
        let q = div_toward_zero(a as int, b as int);
        let ua = abs(a as int);
        let ub = abs(b as int);
        assert(ua / ub <= ua && (ua / ub) * ub <= ua) by (nonlinear_arith)
            requires
                ua >= 0,
                ub >= 1,
        ;
        assert(abs(q) == ua / ub);
        if !(b == -1 && a == i32::MIN) {
            assert(i32::MIN <= q <= i32::MAX) by {
                if q == 0x8000_0000 {
                    assert(ua / ub == 0x8000_0000);
                    assert(ua == 0x8000_0000 && ub == 1) by (nonlinear_arith)
                        requires
                            ua / ub == 0x8000_0000,
                            0 <= ua <= 0x8000_0000,
                            ub >= 1,
                    ;
                }
            }
        }
    }
}

/// `ADDASSIGN` changes the value of the most recent binding of its name in
/// place: the scope stack keeps its length, and the binding holds the sum.
pub proof fn law_add_assign_in_place(id: IdentM, e: ExprM, m: Machine, fuel: nat, o: Replies)
    ensures
        run_stmt(StmtM::AddAssign(id, e), m, fuel, o) matches Ok((m1, _)) ==> {
            &&& m1.stack.len() == m.stack.len()
            &&& variable_value(m.stack, id.0) matches Ok(ValueM::Integer(a))
            &&& eval(e, m) matches Ok(ValueM::Integer(b))
            &&& variable_value(m1.stack, id.0) == Ok::<ValueM, EvalError>(
                ValueM::Integer((a + b) as i32),
            )
        },
{
    if let Ok((m1, _)) = run_stmt(StmtM::AddAssign(id, e), m, fuel, o) {
        let i = lookup(m.stack, id.0, m.stack.len() as int);
        lemma_lookup_found(m.stack, id.0, m.stack.len() as int);
        lemma_lookup_same_names(m.stack, m1.stack, id.0, m.stack.len() as int);
    }
}

proof fn lemma_lookup_found(stack: Seq<(Seq<char>, Option<ValueM>)>, name: Seq<char>, n: int)
    requires
        n <= stack.len(),
    ensures
        lookup(stack, name, n) >= 0 ==> lookup(stack, name, n) < n && stack[lookup(
            stack,
            name,
            n,
        )].0 == name,
    decreases n,
{
    if n > 0 {
        lemma_lookup_found(stack, name, n - 1);
    }
}

proof fn lemma_lookup_same_names(
    s1: Seq<(Seq<char>, Option<ValueM>)>,
    s2: Seq<(Seq<char>, Option<ValueM>)>,
    name: Seq<char>,
    n: int,
)
    requires
        n <= s1.len(),
        s1.len() == s2.len(),
        forall|j: int| 0 <= j < s1.len() ==> (#[trigger] s1[j]).0 == s2[j].0,
    ensures
        lookup(s1, name, n) == lookup(s2, name, n),
    decreases n,
{
    if n > 0 {
        lemma_lookup_same_names(s1, s2, name, n - 1);
    }
}

proof fn lemma_lookup_skips(stack: Seq<(Seq<char>, Option<ValueM>)>, name: Seq<char>, k: int, n: int)
    requires
        0 <= k <= n <= stack.len(),
        forall|t: int| k <= t < n ==> (#[trigger] stack[t]).0 != name,
    ensures
        lookup(stack, name, n) == lookup(stack, name, k),
    decreases n - k,
{
    if n > k {
        lemma_lookup_skips(stack, name, k, n - 1);
    }
}

/// Procedure calls keep a scope discipline: while the body runs, each
/// parameter's binding shadows every outer binding of its name (a later
/// parameter of the same name wins), and a body that leaves the scope stack
/// as it found it returns the caller's stack unchanged.
pub proof fn law_call_scoping(name: Seq<char>, args: Seq<ExprM>, m: Machine, fuel: nat, o: Replies)
    requires
        fuel >= 1,
    ensures
        ({
            let i = find_proc(m.procs, name, 0);
            let params = m.procs[i].params;
            i >= 0 && params.len() == args.len() ==> (eval_all(args, m, 0) matches Ok(values)
                ==> {
                let inner = Machine { stack: m.stack + bindings(params, values), ..m };
                &&& forall|j: int|
                    0 <= j < params.len() && (forall|k: int|
                        j < k < params.len() ==> params[k] != params[j]) ==> variable_value(
                        inner.stack,
                        #[trigger] params[j],
                    ) == Ok::<ValueM, EvalError>(values[j])
                &&& run_block(m.procs[i].body, 0, inner, (fuel - 1) as nat, o) matches Ok((m2, f2))
                    ==> (m2.stack == inner.stack ==> run_call(name, args, m, fuel, o) == Ok::<
                    (Machine, nat),
                    EvalError,
                >((Machine { stack: m.stack, ..m2 }, f2)))
            })
        }),
{
    let i = find_proc(m.procs, name, 0);
    let params = m.procs[i].params;
    if i >= 0 && params.len() == args.len() {
        if let Ok(values) = eval_all(args, m, 0) {
            lemma_eval_all_len(args, m, 0);
            let stack = m.stack + bindings(params, values);
            let base = m.stack.len() as int;
            assert forall|j: int|
                0 <= j < params.len() && (forall|k: int|
                    j < k < params.len() ==> params[k] != params[j]) implies variable_value(
                stack,
                #[trigger] params[j],
            ) == Ok::<ValueM, EvalError>(values[j]) by {
                assert forall|t: int| base + j + 1 <= t < stack.len() implies (
                #[trigger] stack[t]).0 != params[j] by {
                    assert(stack[t].0 == params[t - base]);
                }
                lemma_lookup_skips(stack, params[j], base + j + 1, stack.len() as int);
                assert(stack[base + j] == (params[j], Some(values[j])));
            }
            assert(pop_n(stack, params.len() as int) =~= m.stack);
        }
    }
}

/// With the pen up no command draws: the number of lines on the image stays
/// as it was; with the pen down a `FORWARD` that succeeds draws exactly one
/// line, and the turtle moves to the end point the image library answered.
pub proof fn law_pen_controls_drawing(c: Command, t: TurtleView, v: i32, o: Replies)
    ensures
        !t.pen_down ==> (command_effect(c, t, v, o) matches Ok(t2) ==> t2.lines == t.lines),
        t.pen_down && c == Command::Forward ==> (command_effect(c, t, v, o) matches Ok(t2) ==> {
            &&& t2.lines == t.lines + 1
            &&& next_reply(t, o) == Some((t2.x, t2.y))
        }),
{
}

/// `REPEAT` with a count that is not positive runs nothing: it takes one
/// step and leaves the machine as it was.
pub proof fn law_repeat_not_positive(c: ExprM, b: Seq<StmtM>, m: Machine, fuel: nat, o: Replies)
    requires
        fuel >= 1,
        eval_int(c, m) matches Ok(n) && n <= 0,
    ensures
        run_stmt(StmtM::Repeat(c, b), m, fuel, o) == Ok::<(Machine, nat), EvalError>(
            (m, (fuel - 1) as nat),
        ),
{
}

} // verus!
