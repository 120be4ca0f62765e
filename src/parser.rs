//! The parser: executable rules that compute exactly what the grammar of
//! `crate::grammar` describes.

use vstd::prelude::*;
use crate::ast::{
    block_view, expr_view, exprs_view, Block, ExprM, Expression,
    Identifier, Operator, Query, Statement, StmtM,
};
use crate::grammar::{
    arguments, arity_check, block, block_items, call, char_matches, command_of,
    comment, decimal, definition, end_marker, expression, identifier, in_class, integer,
    is_query_word, keyword_at, keyword_from, keyword_order, keyword_statement, keyword_text,
    lemma_end_marker, lemma_run_end, matches_at, operator_from,
    operator_order, operator_text, parenthesised, program, program_items, query,
    query_from, query_order, query_text, rest_of_line, run_end, sigil_word, spaced, statement,
    statement_check, string_literal, value, variable, binary, glue, lemma_glue,
    lemma_decimal_grows, lemma_operator_from, keyword_rule, keyword_stands, stray_number, query_rule, CharClass, Keyword, ParseError, Parsed,
};
use crate::text::{ascii_lower, digit, is_digit, lower, space, string_of, to_chars, word_char};

verus! {

/// An executable result `r` computes the rule result `m`.
pub open spec fn agrees<T: View>(r: Result<(usize, T), ParseError>, m: Parsed<T::V>) -> bool {
    match m {
        Ok((q, v)) => r matches Ok((rq, rv)) && rq == q && rv@ == v,
        Err(e) => r == Err::<(usize, T), ParseError>(e),
    }
}

pub open spec fn agrees_list(r: Result<(usize, Vec<Expression>), ParseError>, m: Parsed<Seq<ExprM>>) -> bool {
    match m {
        Ok((q, v)) => r matches Ok((rq, rv)) && rq == q && exprs_view(rv@) == v,
        Err(e) => r == Err::<(usize, Vec<Expression>), ParseError>(e),
    }
}

pub open spec fn agrees_block(r: Result<(usize, Block), ParseError>, m: Parsed<Seq<StmtM>>) -> bool {
    match m {
        Ok((q, v)) => r matches Ok((rq, rv)) && rq == q && block_view(rv@) == v,
        Err(e) => r == Err::<(usize, Block), ParseError>(e),
    }
}

/// The end of a successful match lies after its start and within the input.
pub open spec fn moved<T>(r: Result<(usize, T), ParseError>, p: usize, lim: usize) -> bool {
    r matches Ok((q, _)) ==> p < q <= lim
}

fn in_class_exec(k: CharClass, c: char) -> (r: bool)
    ensures
        r == in_class(k, c),
{
    match k {
        CharClass::Space => space(c),
        CharClass::Word => word_char(c),
        CharClass::Digit => digit(c),
        CharClass::Line => c != '\r' && c != '\n',
    }
}

/// The end of the run of class `k` at `p`.
fn scan(s: &Vec<char>, p: usize, lim: usize, k: CharClass) -> (e: usize)
    requires
        p <= lim <= s.len(),
    ensures
        e == run_end(s@, p as int, lim as int, k),
        p <= e <= lim,
{
    let mut i = p;
    while i < lim && in_class_exec(k, s[i])
        invariant
            p <= i <= lim <= s.len(),
            run_end(s@, p as int, lim as int, k) == run_end(s@, i as int, lim as int, k),
        decreases lim - i,
    {
        i += 1;
    }
    i
}

fn spaced_exec(s: &Vec<char>, p: usize, lim: usize) -> (r: Option<usize>)
    requires
        p <= lim <= s.len(),
    ensures
        match spaced(s@, p as int, lim as int) {
            Some(q) => r == Some(q as usize) && p < q <= lim,
            None => r is None,
        },
        r matches Some(q) ==> p < q <= lim,
{
    proof {
        lemma_run_end(s@, p as int, lim as int, CharClass::Space);
    }
    let e = scan(s, p, lim, CharClass::Space);
    if p < e {
        Some(e)
    } else {
        None
    }
}

fn rest_of_line_exec(s: &Vec<char>, p: usize, lim: usize) -> (r: Option<usize>)
    requires
        p <= lim <= s.len(),
    ensures
        match rest_of_line(s@, p as int, lim as int) {
            Some(q) => r == Some(q as usize) && p <= q <= lim,
            None => r is None,
        },
        r matches Some(e) ==> p <= e <= lim,
{
    proof {
        lemma_run_end(s@, p as int, lim as int, CharClass::Line);
    }
    let e = scan(s, p, lim, CharClass::Line);
    if e < lim && s[e] == '\r' && !(e + 1 < lim && s[e + 1] == '\n') {
        None
    } else {
        Some(e)
    }
}

fn matches_exec(s: &Vec<char>, p: usize, lim: usize, w: &Vec<char>, no_case: bool) -> (r: bool)
    requires
        p <= lim <= s.len(),
    ensures
        r == matches_at(s@, p as int, lim as int, w@, no_case),
{
    if w.len() > lim - p {
        return false;
    }
    let mut i: usize = 0;
    while i < w.len()
        invariant
            p + w.len() <= lim <= s.len(),
            i <= w.len(),
            forall|j: int| 0 <= j < i ==> char_matches(#[trigger] s@[p + j], w@[j], no_case),
        decreases w.len() - i,
    {
        let c = s[p + i];
        let ok = if no_case {
            lower(c) == w[i]
        } else {
            c == w[i]
        };
        if !ok {
            assert(!char_matches(s@[p + i as int], w@[i as int], no_case));
            return false;
        }
        i += 1;
    }
    true
}

fn keyword_chars(k: Keyword) -> (r: Vec<char>)
    ensures
        r@ == keyword_text(k),
{
    match k {
        Keyword::PenUp => vec!['p', 'e', 'n', 'u', 'p'],
        Keyword::PenDown => vec!['p', 'e', 'n', 'd', 'o', 'w', 'n'],
        Keyword::Forward => vec!['f', 'o', 'r', 'w', 'a', 'r', 'd'],
        Keyword::Back => vec!['b', 'a', 'c', 'k'],
        Keyword::Left => vec!['l', 'e', 'f', 't'],
        Keyword::Right => vec!['r', 'i', 'g', 'h', 't'],
        Keyword::Turn => vec!['t', 'u', 'r', 'n'],
        Keyword::SetX => vec!['s', 'e', 't', 'x'],
        Keyword::SetY => vec!['s', 'e', 't', 'y'],
        Keyword::SetHeading => vec!['s', 'e', 't', 'h', 'e', 'a', 'd', 'i', 'n', 'g'],
        Keyword::SetPenColor => vec!['s', 'e', 't', 'p', 'e', 'n', 'c', 'o', 'l', 'o', 'r'],
        Keyword::Make => vec!['m', 'a', 'k', 'e'],
        Keyword::AddAssign => vec!['a', 'd', 'd', 'a', 's', 's', 'i', 'g', 'n'],
        Keyword::If => vec!['i', 'f'],
        Keyword::While => vec!['w', 'h', 'i', 'l', 'e'],
        Keyword::Repeat => vec!['r', 'e', 'p', 'e', 'a', 't'],
        Keyword::To => vec!['t', 'o'],
        Keyword::End => vec!['e', 'n', 'd'],
    }
}

fn operator_chars(op: Operator) -> (r: Vec<char>)
    ensures
        r@ == operator_text(op),
{
    match op {
        Operator::Add => vec!['+'],
        Operator::Subtract => vec!['-'],
        Operator::Multiply => vec!['*'],
        Operator::Divide => vec!['/'],
        Operator::Modulo => vec!['%'],
        Operator::Equal => vec!['E', 'Q'],
        Operator::NotEqual => vec!['N', 'E'],
        Operator::GreaterThan => vec!['G', 'T'],
        Operator::LessThan => vec!['L', 'T'],
        Operator::And => vec!['A', 'N', 'D'],
        Operator::Or => vec!['O', 'R'],
    }
}

fn query_chars(q: Query) -> (r: Vec<char>)
    ensures
        r@ == query_text(q),
{
    match q {
        Query::XCor => vec!['x', 'c', 'o', 'r'],
        Query::YCor => vec!['y', 'c', 'o', 'r'],
        Query::Heading => vec!['h', 'e', 'a', 'd', 'i', 'n', 'g'],
        Query::Color => vec!['c', 'o', 'l', 'o', 'r'],
    }
}

fn keyword_stands_exec(s: &Vec<char>, p: usize, lim: usize, k: Keyword) -> (r: bool)
    requires
        p <= lim <= s.len(),
    ensures
        r == keyword_stands(s@, p as int, lim as int, k),
{
    let w = keyword_chars(k);
    if !matches_exec(s, p, lim, &w, true) {
        return false;
    }
    let e = p + w.len();
    !(e < lim && word_char(s[e]))
}

/// The statement keyword at `p`, if any.
fn keyword_exec(s: &Vec<char>, p: usize, lim: usize) -> (r: Option<Keyword>)
    requires
        p <= lim <= s.len(),
    ensures
        r == keyword_at(s@, p as int, lim as int),
        r matches Some(k) ==> p + keyword_text(k).len() <= lim,
{
    let order = vec![
        Keyword::PenUp, Keyword::PenDown, Keyword::Forward, Keyword::Back, Keyword::Left,
        Keyword::Right, Keyword::Turn, Keyword::SetX, Keyword::SetY, Keyword::SetHeading,
        Keyword::SetPenColor, Keyword::Make, Keyword::AddAssign, Keyword::If, Keyword::While,
        Keyword::Repeat, Keyword::To, Keyword::End,
    ];
    assert(order@ == keyword_order());
    let mut i: usize = 0;
    while i < order.len()
        invariant
            p <= lim <= s.len(),
            order@ == keyword_order(),
            i <= order.len(),
            keyword_at(s@, p as int, lim as int) == keyword_from(s@, p as int, lim as int, i as int),
        decreases order.len() - i,
    {
        let k = order[i];
        if keyword_stands_exec(s, p, lim, k) {
            return Some(k);
        }
        i += 1;
    }
    None
}

fn operator_exec(s: &Vec<char>, p: usize, lim: usize) -> (r: Option<Operator>)
    requires
        p <= lim <= s.len(),
    ensures
        r == operator_from(s@, p as int, lim as int, 0),
{
    let order = vec![
        Operator::Add, Operator::Subtract, Operator::Multiply, Operator::Divide,
        Operator::Modulo, Operator::Equal, Operator::NotEqual, Operator::GreaterThan,
        Operator::LessThan, Operator::And, Operator::Or,
    ];
    assert(order@ == operator_order());
    let mut i: usize = 0;
    while i < order.len()
        invariant
            p <= lim <= s.len(),
            order@ == operator_order(),
            i <= order.len(),
            operator_from(s@, p as int, lim as int, 0) == operator_from(s@, p as int, lim as int, i as int),
        decreases order.len() - i,
    {
        let op = order[i];
        if matches_exec(s, p, lim, &operator_chars(op), false) {
            return Some(op);
        }
        i += 1;
    }
    None
}

fn query_exec(s: &Vec<char>, p: usize, lim: usize) -> (r: Option<Query>)
    requires
        p <= lim <= s.len(),
    ensures
        r == query_from(s@, p as int, lim as int, 0),
{
    let order = vec![Query::XCor, Query::YCor, Query::Heading, Query::Color];
    assert(order@ == query_order());
    let mut i: usize = 0;
    while i < order.len()
        invariant
            p <= lim <= s.len(),
            order@ == query_order(),
            i <= order.len(),
            query_from(s@, p as int, lim as int, 0) == query_from(s@, p as int, lim as int, i as int),
        decreases order.len() - i,
    {
        let q = order[i];
        if matches_exec(s, p, lim, &query_chars(q), true) {
            return Some(q);
        }
        i += 1;
    }
    None
}

/// Whether `s[a..e]`, read without regard to ASCII case, is a query word.
fn query_word(s: &Vec<char>, a: usize, e: usize) -> (r: bool)
    requires
        a <= e <= s.len(),
    ensures
        r == is_query_word(s@.subrange(a as int, e as int)),
{
    let ghost name = s@.subrange(a as int, e as int);
    let ghost low = name.map_values(|c: char| ascii_lower(c));
    let order = vec![Query::XCor, Query::YCor, Query::Heading, Query::Color];
    let mut i: usize = 0;
    while i < order.len()
        invariant
            a <= e <= s.len(),
            name == s@.subrange(a as int, e as int),
            low == name.map_values(|c: char| ascii_lower(c)),
            order@ == query_order(),
            i <= order.len(),
            forall|j: int| 0 <= j < i ==> low != query_text(#[trigger] order@[j]),
        decreases order.len() - i,
    {
        let q = order[i];
        let w = query_chars(q);
        if w.len() == e - a && matches_exec(s, a, e, &w, true) {
            assert forall|k: int| 0 <= k < low.len() implies low[k] == query_text(q)[k] by {
                assert(char_matches(s@[a + k], w@[k], true));
            }
            assert(low =~= query_text(q));
            return true;
        }
        proof {
            if low == query_text(q) {
                assert(w.len() == e - a);
                assert forall|k: int| 0 <= k < w.len() implies char_matches(
                    #[trigger] s@[a + k],
                    w@[k],
                    true,
                ) by {
                    assert(low[k] == ascii_lower(name[k]));
                }
            }
        }
        i += 1;
    }
    assert forall|q: Query| low != #[trigger] query_text(q) by {
        match q {
            Query::XCor => assert(order@[0] == q),
            Query::YCor => assert(order@[1] == q),
            Query::Heading => assert(order@[2] == q),
            Query::Color => assert(order@[3] == q),
        }
    }
    false
}

fn no_match<T>() -> (r: Result<(usize, T), ParseError>)
    ensures
        r == Err::<(usize, T), ParseError>(ParseError::NoMatch),
{
    Err(ParseError::NoMatch)
}

fn comment_exec(s: &Vec<char>, p: usize, lim: usize) -> (r: Result<usize, ParseError>)
    requires
        p <= lim <= s.len(),
    ensures
        match comment(s@, p as int, lim as int) {
            Ok((q, _)) => r == Ok::<usize, ParseError>(q as usize) && p < q <= lim,
            Err(x) => r == Err::<usize, ParseError>(x),
        },
        r matches Ok(q) ==> p < q <= lim,
{
    if !matches_exec(s, p, lim, &vec!['/', '/'], false) {
        return Err(ParseError::NoMatch);
    }
    let e = scan(s, p + 2, lim, CharClass::Line);
    proof {
        lemma_run_end(s@, p + 2, lim as int, CharClass::Line);
    }
    if e < lim && s[e] == '\n' {
        Ok(e + 1)
    } else if e < lim && lim - e > 1 && s[e] == '\r' && s[e + 1] == '\n' {
        Ok(e + 2)
    } else {
        Err(ParseError::NoMatch)
    }
}

fn identifier_exec(s: &Vec<char>, p: usize, lim: usize) -> (r: Result<(usize, Identifier), ParseError>)
    requires
        p <= lim <= s.len(),
    ensures
        agrees(r, identifier(s@, p as int, lim as int)),
        moved(r, p, lim),
{
    let q = if p < lim && (s[p] == '"' || s[p] == ':') {
        p + 1
    } else {
        p
    };
    let sigil = string_of(s, p, q);
    let e = scan(s, q, lim, CharClass::Word);
    if q < e {
        let name = string_of(s, q, e);
        let mark = if q == p && query_word(s, q, e) {
            let mut m = String::new();
            m.push('Q');
            m
        } else {
            sigil
        };
        proof {
            if q == p {
                assert(sigil@ =~= seq![]);
            } else {
                assert(sigil@ =~= seq![s@[p as int]]);
            }
            if q == p && is_query_word(name@) {
                assert(mark@ =~= seq!['Q']);
            }
        }
        Ok((e, Identifier(name, mark)))
    } else {
        Err(ParseError::NoMatch)
    }
}

fn integer_exec(s: &Vec<char>, p: usize, lim: usize) -> (r: Result<(usize, Expression), ParseError>)
    requires
        p <= lim <= s.len(),
    ensures
        agrees(r, integer(s@, p as int, lim as int)),
        moved(r, p, lim),
{
    if !(p < lim && s[p] == '"') {
        return Err(ParseError::NoMatch);
    }
    let neg = p + 1 < lim && s[p + 1] == '-';
    let d = if neg {
        p + 2
    } else {
        p + 1
    };
    let e = scan(s, d, lim, CharClass::Digit);
    if d >= e {
        return Err(ParseError::NoMatch);
    }
    proof {
        lemma_run_end(s@, d as int, lim as int, CharClass::Digit);
    }
    let limit: u64 = 0x8000_0000;
    let mut acc: u64 = 0;
    let mut big = false;
    let mut i = d;
    while i < e
        invariant
            d <= i <= e <= lim <= s.len(),
            forall|k: int| d <= k < e ==> is_digit(#[trigger] s@[k]),
            !big ==> acc == decimal(s@, d as int, i as int) && acc <= limit,
            big ==> decimal(s@, d as int, i as int) > limit,
            limit == 0x8000_0000,
        decreases e - i,
    {
        let c = s[i];
        assert(is_digit(s@[i as int]));
        let dv = (c as u32 - '0' as u32) as u64;
        if !big {
            let next = acc * 10 + dv;
            if next > limit {
                big = true;
            } else {
                acc = next;
            }
        } else {
            proof {
                lemma_decimal_grows(s@, d as int, i as int, i + 1);
            }
        }
        i += 1;
    }
    if big {
        return Err(ParseError::IntegerRange);
    }
    if neg {
        let v: i64 = -(acc as i64);
        Ok((e, Expression::IntegerLiteral(v as i32)))
    } else if acc <= 0x7fff_ffff {
        Ok((e, Expression::IntegerLiteral(acc as i32)))
    } else {
        Err(ParseError::IntegerRange)
    }
}

fn sigil_word_exec(s: &Vec<char>, p: usize, lim: usize, sigil: char) -> (r: Option<(usize, String)>)
    requires
        p <= lim <= s.len(),
    ensures
        match sigil_word(s@, p as int, lim as int, sigil) {
            Some((e, w)) => r matches Some((re, rw)) && re == e && rw@ == w,
            None => r is None,
        },
        r matches Some((e, _)) ==> p < e <= lim,
{
    if p < lim && s[p] == sigil {
        let e = scan(s, p + 1, lim, CharClass::Word);
        if p + 1 < e {
            return Some((e, string_of(s, p + 1, e)));
        }
    }
    None
}

fn string_literal_exec(s: &Vec<char>, p: usize, lim: usize) -> (r: Result<(usize, Expression), ParseError>)
    requires
        p <= lim <= s.len(),
    ensures
        agrees(r, string_literal(s@, p as int, lim as int)),
        moved(r, p, lim),
{
    match sigil_word_exec(s, p, lim, '"') {
        Some((e, w)) => Ok((e, Expression::StringLiteral(w))),
        None => Err(ParseError::NoMatch),
    }
}

fn variable_exec(s: &Vec<char>, p: usize, lim: usize) -> (r: Result<(usize, Expression), ParseError>)
    requires
        p <= lim <= s.len(),
    ensures
        agrees(r, variable(s@, p as int, lim as int)),
        moved(r, p, lim),
{
    match sigil_word_exec(s, p, lim, ':') {
        Some((e, w)) => Ok((e, Expression::VariableReference(w))),
        None => Err(ParseError::NoMatch),
    }
}

fn query_expr_exec(s: &Vec<char>, p: usize, lim: usize) -> (r: Result<(usize, Expression), ParseError>)
    requires
        p <= lim <= s.len(),
    ensures
        agrees(r, query(s@, p as int, lim as int)),
        moved(r, p, lim),
{
    proof {
        lemma_query_from(s@, p as int, lim as int, 0);
    }
    match query_exec(s, p, lim) {
        Some(q) => {
            let e = p + query_chars(q).len();
            let x = match q {
                Query::XCor => Expression::QueryXCor,
                Query::YCor => Expression::QueryYCor,
                Query::Heading => Expression::QueryHeading,
                Query::Color => Expression::QueryColor,
            };
            Ok((e, x))
        },
        None => Err(ParseError::NoMatch),
    }
}

proof fn lemma_query_from(s: Seq<char>, p: int, lim: int, i: int)
    ensures
        query_from(s, p, lim, i) matches Some(q) ==> matches_at(s, p, lim, query_text(q), true),
    decreases query_order().len() - i,
{
    if 0 <= i < query_order().len() {
        lemma_query_from(s, p, lim, i + 1);
    }
}

fn expression_exec(s: &Vec<char>, p: usize, lim: usize) -> (r: Result<(usize, Expression), ParseError>)
    requires
        p <= lim <= s.len(),
    ensures
        agrees(r, expression(s@, p as int, lim as int)),
        moved(r, p, lim),
    decreases lim - p, 3nat,
{
    let b = binary_exec(s, p, lim);
    match b {
        Err(ParseError::NoMatch) => value_exec(s, p, lim),
        _ => b,
    }
}

fn value_exec(s: &Vec<char>, p: usize, lim: usize) -> (r: Result<(usize, Expression), ParseError>)
    requires
        p <= lim <= s.len(),
    ensures
        agrees(r, value(s@, p as int, lim as int)),
        moved(r, p, lim),
    decreases lim - p, 2nat,
{
    let r = parenthesised_exec(s, p, lim);
    if !(r matches Err(ParseError::NoMatch)) {
        return r;
    }
    let r = query_expr_exec(s, p, lim);
    if !(r matches Err(ParseError::NoMatch)) {
        return r;
    }
    let r = integer_exec(s, p, lim);
    if !(r matches Err(ParseError::NoMatch)) {
        return r;
    }
    let r = variable_exec(s, p, lim);
    if !(r matches Err(ParseError::NoMatch)) {
        return r;
    }
    string_literal_exec(s, p, lim)
}

fn parenthesised_exec(s: &Vec<char>, p: usize, lim: usize) -> (r: Result<(usize, Expression), ParseError>)
    requires
        p <= lim <= s.len(),
    ensures
        agrees(r, parenthesised(s@, p as int, lim as int)),
        moved(r, p, lim),
    decreases lim - p, 1nat,
{
    if !(p < lim && s[p] == '(') {
        return Err(ParseError::NoMatch);
    }
    match expression_exec(s, p + 1, lim) {
        Ok((q, e)) => if q < lim && s[q] == ')' {
            Ok((q + 1, e))
        } else {
            Err(ParseError::NoMatch)
        },
        Err(x) => Err(x),
    }
}

fn binary_exec(s: &Vec<char>, p: usize, lim: usize) -> (r: Result<(usize, Expression), ParseError>)
    requires
        p <= lim <= s.len(),
    ensures
        agrees(r, binary(s@, p as int, lim as int)),
        moved(r, p, lim),
    decreases lim - p, 2nat,
{
    proof {
        lemma_operator_from(s@, p as int, lim as int, 0);
    }
    let op = match operator_exec(s, p, lim) {
        Some(op) => op,
        None => return Err(ParseError::NoMatch),
    };
    let a = p + operator_chars(op).len();
    let q = match spaced_exec(s, a, lim) {
        Some(q) => q,
        None => return Err(ParseError::NoMatch),
    };
    let (r, left) = match expression_exec(s, q, lim) {
        Ok(x) => x,
        Err(x) => return Err(x),
    };
    let t = match spaced_exec(s, r, lim) {
        Some(t) => t,
        None => return Err(ParseError::NoMatch),
    };
    let (u, right) = match expression_exec(s, t, lim) {
        Ok(x) => x,
        Err(x) => return Err(x),
    };
    let ghost (lm, rm) = (left@, right@);
    let e = Expression::binary(op, left, right);
    assert(e@ == ExprM::Binary(op, Box::new(lm), Box::new(rm)));
    Ok((u, e))
}

fn arguments_exec(s: &Vec<char>, p: usize, lim: usize) -> (r: Result<(usize, Vec<Expression>), ParseError>)
    requires
        p <= lim <= s.len(),
    ensures
        agrees_list(r, arguments(s@, p as int, lim as int)),
        r matches Ok((q, v)) ==> p <= q <= lim && v.len() <= q - p,
{
    let mut cur = p;
    let mut acc: Vec<Expression> = Vec::new();
    assert(exprs_view(acc@) =~= seq![]);
    loop
        invariant
            p <= cur <= lim <= s.len(),
            acc.len() <= cur - p,
            arguments(s@, p as int, lim as int) == glue(exprs_view(acc@), arguments(s@, cur as int, lim as int)),
        decreases lim - cur,
    {
        let q = match spaced_exec(s, cur, lim) {
            Some(q) => q,
            None => {
                assert(exprs_view(acc@) + seq![] =~= exprs_view(acc@));
                return Ok((cur, acc));
            },
        };
        match expression_exec(s, q, lim) {
            Ok((r, e)) => {
                proof {
                    lemma_glue(exprs_view(acc@), e@, arguments(s@, r as int, lim as int));
                }
                let ghost old_acc = acc@;
                acc.push(e);
                assert(exprs_view(acc@) =~= exprs_view(old_acc).push(expr_view(e)));
                cur = r;
            },
            Err(ParseError::NoMatch) => {
                assert(exprs_view(acc@) + seq![] =~= exprs_view(acc@));
                return Ok((cur, acc));
            },
            Err(x) => return Err(x),
        }
    }
}

/// How an argument is written, as far as the argument check cares.
#[derive(Debug, PartialEq, Eq, Clone, Copy, Structural)]
pub enum ArgumentKind {
    /// A string literal, which never gives the integer a command needs.
    StringLiteral,
    /// Any other expression.
    Expression,
}

/// The kind of argument `arg` is.
pub fn argument_kind(arg: &Expression) -> (r: ArgumentKind)
    ensures
        (r == ArgumentKind::StringLiteral) == (arg@ is Text),
{
    match arg {
        Expression::StringLiteral(_) => ArgumentKind::StringLiteral,
        _ => ArgumentKind::Expression,
    }
}

fn stray_number_exec(s: &Vec<char>, q: usize, e: usize) -> (r: bool)
    requires
        q <= e <= s.len(),
    ensures
        r == stray_number(s@, q as int, e as int),
{
    let t = scan(s, q, e, CharClass::Space);
    t < e && digit(s[t])
}

fn arity_check_exec(k: Keyword, args: &Vec<Expression>, stray: bool) -> (r: Result<(), ParseError>)
    requires
        args.len() < usize::MAX,
    ensures
        r == arity_check(k, exprs_view(args@), stray),
{
    let n = if stray {
        args.len() + 1
    } else {
        args.len()
    };
    match k {
        Keyword::PenUp | Keyword::PenDown => if n != 0 {
            Err(ParseError::Arity { keyword: k, expected: 0, given: n })
        } else {
            Ok(())
        },
        Keyword::Make | Keyword::AddAssign => if n != 2 {
            Err(ParseError::Arity { keyword: k, expected: 2, given: n })
        } else if stray {
            Err(ParseError::ArgumentType { keyword: k })
        } else {
            Ok(())
        },
        Keyword::To | Keyword::End => Ok(()),
        _ => if n != 1 {
            Err(ParseError::Arity { keyword: k, expected: 1, given: n })
        } else if stray || argument_kind(&args[0]) == ArgumentKind::StringLiteral {
            Err(ParseError::ArgumentType { keyword: k })
        } else {
            Ok(())
        },
    }
}

fn statement_check_exec(s: &Vec<char>, p: usize, lim: usize) -> (r: Result<(), ParseError>)
    requires
        p <= lim <= s.len(),
    ensures
        r == statement_check(s@, p as int, lim as int),
{
    match keyword_exec(s, p, lim) {
        Some(k) => {
            let a = p + keyword_chars(k).len();
            match rest_of_line_exec(s, a, lim) {
                Some(e) => match arguments_exec(s, a, e) {
                    Ok((q, args)) => arity_check_exec(k, &args, stray_number_exec(s, q, e)),
                    Err(x) => Err(x),
                },
                None => Ok(()),
            }
        },
        None => Ok(()),
    }
}

fn call_exec(s: &Vec<char>, p: usize, lim: usize) -> (r: Result<(usize, Statement), ParseError>)
    requires
        p <= lim <= s.len(),
    ensures
        agrees(r, call(s@, p as int, lim as int)),
        moved(r, p, lim),
{
    let (r, id) = match identifier_exec(s, p, lim) {
        Ok(x) => x,
        Err(x) => return Err(x),
    };
    let e = match rest_of_line_exec(s, r, lim) {
        Some(e) => e,
        None => return Err(ParseError::NoMatch),
    };
    match arguments_exec(s, r, e) {
        Ok((_, args)) => Ok((e, Statement::ProcedureCall { name: id, arguments: args })),
        Err(x) => Err(x),
    }
}

fn end_marker_exec(s: &Vec<char>, p: usize, lim: usize) -> (r: Option<usize>)
    requires
        p <= lim <= s.len(),
    ensures
        match end_marker(s@, p as int, lim as int) {
            Some(m) => r == Some(m as usize) && p <= m && m + 4 <= lim,
            None => r is None,
        },
{
    proof {
        lemma_end_marker(s@, p as int, lim as int);
    }
    let marker = vec!['E', 'N', 'D', '\n'];
    let mut i = p;
    while lim - i >= 4
        invariant
            p <= i <= lim <= s.len(),
            marker@ == seq!['E', 'N', 'D', '\n'],
            end_marker(s@, p as int, lim as int) == end_marker(s@, i as int, lim as int),
        decreases lim - i,
    {
        if matches_exec(s, i, lim, &marker, false) {
            return Some(i);
        }
        i += 1;
    }
    None
}

fn statement_exec(s: &Vec<char>, p: usize, lim: usize) -> (r: Result<(usize, Statement), ParseError>)
    requires
        p <= lim <= s.len(),
    ensures
        agrees(r, statement(s@, p as int, lim as int)),
        moved(r, p, lim),
    decreases lim - p, 5nat,
{
    match statement_check_exec(s, p, lim) {
        Err(x) => return Err(x),
        Ok(()) => {},
    }
    let r = match keyword_exec(s, p, lim) {
        Some(k) => {
            let r = keyword_statement_exec(s, p, lim, k);
            if r matches Err(ParseError::NoMatch) {
                call_exec(s, p, lim)
            } else {
                r
            }
        },
        None => call_exec(s, p, lim),
    };
    match r {
        Ok((q, st)) => Ok((scan(s, q, lim, CharClass::Space), st)),
        Err(x) => Err(x),
    }
}

fn keyword_statement_exec(s: &Vec<char>, p: usize, lim: usize, k: Keyword) -> (r: Result<(usize, Statement), ParseError>)
    requires
        p <= lim <= s.len(),
    ensures
        agrees(r, keyword_statement(s@, p as int, lim as int, k)),
        moved(r, p, lim),
    decreases lim - p, 4nat,
{
    let len = keyword_chars(k).len();
    if len > lim - p {
        return Err(ParseError::NoMatch);
    }
    let a = p + len;
    match k {
        Keyword::PenUp => Ok((a, Statement::PenUp)),
        Keyword::PenDown => Ok((a, Statement::PenDown)),
        Keyword::Make | Keyword::AddAssign => assignment_exec(s, p, lim, k),
        Keyword::If | Keyword::While | Keyword::Repeat => control_exec(s, p, lim, k),
        Keyword::To => definition_exec(s, p, lim),
        Keyword::End => Err(ParseError::NoMatch),
        _ => command_exec(s, p, lim, k),
    }
}

fn assignment_exec(s: &Vec<char>, p: usize, lim: usize, k: Keyword) -> (r: Result<(usize, Statement), ParseError>)
    requires
        p <= lim <= s.len(),
        p + keyword_text(k).len() <= lim,
        k == Keyword::Make || k == Keyword::AddAssign,
    ensures
        agrees(r, keyword_statement(s@, p as int, lim as int, k)),
        moved(r, p, lim),
{
    let a = p + keyword_chars(k).len();
    let q = match spaced_exec(s, a, lim) {
        Some(q) => q,
        None => return Err(ParseError::NoMatch),
    };
    let (r, id) = match identifier_exec(s, q, lim) {
        Ok(x) => x,
        Err(x) => return Err(x),
    };
    let t = match spaced_exec(s, r, lim) {
        Some(t) => t,
        None => return Err(ParseError::NoMatch),
    };
    let (u, e) = match expression_exec(s, t, lim) {
        Ok(x) => x,
        Err(x) => return Err(x),
    };
    if k == Keyword::Make {
        Ok((u, Statement::Make(id, Box::new(e))))
    } else {
        Ok((u, Statement::AddAssign(id, Box::new(e))))
    }
}

fn command_exec(s: &Vec<char>, p: usize, lim: usize, k: Keyword) -> (r: Result<(usize, Statement), ParseError>)
    requires
        p <= lim <= s.len(),
        p + keyword_text(k).len() <= lim,
        command_of(k) is Some,
    ensures
        agrees(r, keyword_statement(s@, p as int, lim as int, k)),
        moved(r, p, lim),
{
    let a = p + keyword_chars(k).len();
    let q = match spaced_exec(s, a, lim) {
        Some(q) => q,
        None => return Err(ParseError::NoMatch),
    };
    let (r, e) = match expression_exec(s, q, lim) {
        Ok(x) => x,
        Err(x) => return Err(x),
    };
    let e = Box::new(e);
    let st = match k {
        Keyword::Forward => Statement::Forward(e),
        Keyword::Back => Statement::Back(e),
        Keyword::Left => Statement::Left(e),
        Keyword::Right => Statement::Right(e),
        Keyword::Turn => Statement::Turn(e),
        Keyword::SetX => Statement::SetX(e),
        Keyword::SetY => Statement::SetY(e),
        Keyword::SetHeading => Statement::SetHeading(e),
        _ => Statement::SetPenColor(e),
    };
    Ok((r, st))
}

fn control_exec(s: &Vec<char>, p: usize, lim: usize, k: Keyword) -> (r: Result<(usize, Statement), ParseError>)
    requires
        p <= lim <= s.len(),
        p + keyword_text(k).len() <= lim,
        k == Keyword::If || k == Keyword::While || k == Keyword::Repeat,
    ensures
        agrees(r, keyword_statement(s@, p as int, lim as int, k)),
        moved(r, p, lim),
    decreases lim - p, 3nat,
{
    let a = p + keyword_chars(k).len();
    let q = match spaced_exec(s, a, lim) {
        Some(q) => q,
        None => return Err(ParseError::NoMatch),
    };
    let (r, c) = match expression_exec(s, q, lim) {
        Ok(x) => x,
        Err(x) => return Err(x),
    };
    let t = scan(s, r, lim, CharClass::Space);
    let (u, b) = match block_exec(s, t, lim) {
        Ok(x) => x,
        Err(x) => return Err(x),
    };
    if k == Keyword::If {
        Ok((u, Statement::If(Box::new(c), Box::new(b))))
    } else if k == Keyword::While {
        Ok((u, Statement::While(Box::new(c), Box::new(b))))
    } else {
        Ok((u, Statement::Repeat(Box::new(c), Box::new(b))))
    }
}

fn block_exec(s: &Vec<char>, p: usize, lim: usize) -> (r: Result<(usize, Block), ParseError>)
    requires
        p <= lim <= s.len(),
    ensures
        agrees_block(r, block(s@, p as int, lim as int)),
        moved(r, p, lim),
    decreases lim - p, 7nat,
{
    if !(p < lim && s[p] == '[') {
        return Err(ParseError::NoMatch);
    }
    let (q, b) = match block_items_exec(s, p + 1, lim) {
        Ok(x) => x,
        Err(x) => return Err(x),
    };
    let t = scan(s, q, lim, CharClass::Space);
    if t < lim && s[t] == ']' {
        Ok((t + 1, b))
    } else {
        Err(ParseError::NoMatch)
    }
}

proof fn lemma_block_push(v: Seq<Statement>, x: Statement)
    ensures
        block_view(v.push(x)) == block_view(v).push(x@),
{
    assert(block_view(v.push(x)) =~= block_view(v).push(x@));
}

fn block_items_exec(s: &Vec<char>, p: usize, lim: usize) -> (r: Result<(usize, Block), ParseError>)
    requires
        p <= lim <= s.len(),
    ensures
        agrees_block(r, block_items(s@, p as int, lim as int)),
        r matches Ok((q, _)) ==> p <= q <= lim,
    decreases lim - p, 6nat,
{
    let mut cur = p;
    let mut acc: Block = Vec::new();
    assert(block_view(acc@) =~= seq![]);
    loop
        invariant
            p <= cur <= lim <= s.len(),
            block_items(s@, p as int, lim as int) == glue(block_view(acc@), block_items(s@, cur as int, lim as int)),
        decreases lim - cur,
    {
        let q = scan(s, cur, lim, CharClass::Space);
        match statement_exec(s, q, lim) {
            Ok((r, st)) => {
                proof {
                    lemma_glue(block_view(acc@), st@, block_items(s@, r as int, lim as int));
                    lemma_block_push(acc@, st);
                }
                acc.push(st);
                cur = r;
            },
            Err(ParseError::NoMatch) => {
                assert(block_view(acc@) + seq![] =~= block_view(acc@));
                return Ok((cur, acc));
            },
            Err(x) => return Err(x),
        }
    }
}

fn program_items_exec(s: &Vec<char>, p: usize, lim: usize) -> (r: Result<(usize, Block), ParseError>)
    requires
        p <= lim <= s.len(),
    ensures
        agrees_block(r, program_items(s@, p as int, lim as int)),
        r matches Ok((q, _)) ==> p <= q <= lim,
    decreases lim - p, 6nat,
{
    let mut cur = p;
    let mut acc: Block = Vec::new();
    assert(block_view(acc@) =~= seq![]);
    loop
        invariant
            p <= cur <= lim <= s.len(),
            program_items(s@, p as int, lim as int) == glue(block_view(acc@), program_items(s@, cur as int, lim as int)),
        decreases lim - cur,
    {
        let q = scan(s, cur, lim, CharClass::Space);
        match comment_exec(s, q, lim) {
            Ok(r) => {
                cur = r;
            },
            Err(_) => match statement_exec(s, q, lim) {
                Ok((r, st)) => {
                    proof {
                        lemma_glue(block_view(acc@), st@, program_items(s@, r as int, lim as int));
                        lemma_block_push(acc@, st);
                    }
                    acc.push(st);
                    cur = r;
                },
                Err(ParseError::NoMatch) => {
                    assert(block_view(acc@) + seq![] =~= block_view(acc@));
                    return Ok((cur, acc));
                },
                Err(x) => return Err(x),
            },
        }
    }
}

fn definition_exec(s: &Vec<char>, p: usize, lim: usize) -> (r: Result<(usize, Statement), ParseError>)
    requires
        p <= lim <= s.len(),
    ensures
        agrees(r, definition(s@, p as int, lim as int)),
        moved(r, p, lim),
    decreases lim - p, 3nat,
{
    if lim - p < 2 {
        return Err(ParseError::NoMatch);
    }
    let a = p + 2;
    let q = match spaced_exec(s, a, lim) {
        Some(q) => q,
        None => return Err(ParseError::NoMatch),
    };
    let (r, id) = match identifier_exec(s, q, lim) {
        Ok(x) => x,
        Err(x) => return Err(x),
    };
    let e = match rest_of_line_exec(s, r, lim) {
        Some(e) => e,
        None => return Err(ParseError::NoMatch),
    };
    let params = match arguments_exec(s, r, e) {
        Ok((_, params)) => params,
        Err(x) => return Err(x),
    };
    let b = scan(s, e, lim, CharClass::Space);
    let m = match end_marker_exec(s, b, lim) {
        Some(m) => m,
        None => return Err(ParseError::NoMatch),
    };
    let (t, body) = match program_items_exec(s, b, m) {
        Ok(x) => x,
        Err(x) => return Err(x),
    };
    let u = scan(s, t, m, CharClass::Space);
    if u == m {
        Ok((m + 3, Statement::ProcedureDefinition { name: id, parameters: params, body }))
    } else {
        Err(ParseError::Syntax { position: u })
    }
}

/// A public result `r` on input `s` computes the rule result `m`, handing
/// back the input that is left after the match.
pub open spec fn agrees_rest<T: View>(r: Result<(String, T), ParseError>, s: Seq<char>, m: Parsed<T::V>) -> bool {
    match m {
        Ok((q, v)) => r matches Ok((rest, rv)) && rest@ == s.subrange(q, s.len() as int) && rv@ == v,
        Err(e) => r == Err::<(String, T), ParseError>(e),
    }
}

fn finish<T: View>(s: &Vec<char>, r: Result<(usize, T), ParseError>) -> (out: Result<(String, T), ParseError>)
    requires
        r matches Ok((q, _)) ==> q <= s.len(),
    ensures
        forall|m: Parsed<T::V>| agrees(r, m) ==> agrees_rest(out, s@, m),
{
    match r {
        Ok((q, v)) => Ok((string_of(s, q, s.len()), v)),
        Err(x) => Err(x),
    }
}

fn keyword_rule_exec(input: &str, k: Keyword) -> (r: Result<(String, Statement), ParseError>)
    ensures
        agrees_rest(r, input@, keyword_rule(input@, k)),
{
    let s = to_chars(input);
    let lim = s.len();
    let r = if keyword_stands_exec(&s, 0, lim, k) {
        keyword_statement_exec(&s, 0, lim, k)
    } else {
        no_match()
    };
    assert(agrees(r, keyword_rule(input@, k)));
    finish(&s, r)
}

fn query_rule_exec(input: &str, q: Query) -> (r: Result<(String, Expression), ParseError>)
    ensures
        agrees_rest(r, input@, query_rule(input@, q)),
{
    let s = to_chars(input);
    let lim = s.len();
    let w = query_chars(q);
    let r = if matches_exec(&s, 0, lim, &w, true) {
        let x = match q {
            Query::XCor => Expression::QueryXCor,
            Query::YCor => Expression::QueryYCor,
            Query::Heading => Expression::QueryHeading,
            Query::Color => Expression::QueryColor,
        };
        Ok((w.len(), x))
    } else {
        no_match()
    };
    assert(agrees(r, query_rule(input@, q)));
    finish(&s, r)
}

/// Parses a whole program: its statements in order, comments left out.
/// Fails where input is left that is not spaces, and on the first error
/// that ends a parse.
pub fn parse_program(content: String) -> (r: Result<Block, ParseError>)
    ensures
        match program(content@) {
            Ok(b) => r matches Ok(rb) && block_view(rb@) == b,
            Err(e) => r == Err::<Block, ParseError>(e),
        },
{
    let s = to_chars(content.as_str());
    let len = s.len();
    let (t, b) = match program_items_exec(&s, 0, len) {
        Ok(x) => x,
        Err(x) => return Err(x),
    };
    let e = scan(&s, t, len, CharClass::Space);
    if e == len {
        Ok(b)
    } else {
        Err(ParseError::Syntax { position: e })
    }
}

/// Parses a comment at the start of `input`.
pub fn parse_comment(input: &str) -> (r: Result<(String, ()), ParseError>)
    ensures
        match comment(input@, 0, input@.len() as int) {
            Ok((q, _)) => r matches Ok((rest, _)) && rest@ == input@.subrange(q, input@.len() as int),
            Err(e) => r == Err::<(String, ()), ParseError>(e),
        },
{
    let s = to_chars(input);
    match comment_exec(&s, 0, s.len()) {
        Ok(q) => Ok((string_of(&s, q, s.len()), ())),
        Err(x) => Err(x),
    }
}

/// Parses an identifier at the start of `input`.
pub fn parse_identifier(input: &str) -> (r: Result<(String, Identifier), ParseError>)
    ensures
        agrees_rest(r, input@, identifier(input@, 0, input@.len() as int)),
{
    let s = to_chars(input);
    let r = identifier_exec(&s, 0, s.len());
    finish(&s, r)
}

/// Parses an integer literal at the start of `input`.
pub fn parse_integer(input: &str) -> (r: Result<(String, Expression), ParseError>)
    ensures
        agrees_rest(r, input@, integer(input@, 0, input@.len() as int)),
{
    let s = to_chars(input);
    let r = integer_exec(&s, 0, s.len());
    finish(&s, r)
}

/// Parses a string literal at the start of `input`.
pub fn parse_string(input: &str) -> (r: Result<(String, Expression), ParseError>)
    ensures
        agrees_rest(r, input@, string_literal(input@, 0, input@.len() as int)),
{
    let s = to_chars(input);
    let r = string_literal_exec(&s, 0, s.len());
    finish(&s, r)
}

/// Parses a variable reference at the start of `input`.
pub fn parse_variable(input: &str) -> (r: Result<(String, Expression), ParseError>)
    ensures
        agrees_rest(r, input@, variable(input@, 0, input@.len() as int)),
{
    let s = to_chars(input);
    let r = variable_exec(&s, 0, s.len());
    finish(&s, r)
}

/// Parses the query `XCOR`, in any case, at the start of `input`.
pub fn parse_xcor(input: &str) -> (r: Result<(String, Expression), ParseError>)
    ensures
        agrees_rest(r, input@, query_rule(input@, Query::XCor)),
{
    query_rule_exec(input, Query::XCor)
}

/// Parses the query `YCOR`, in any case, at the start of `input`.
pub fn parse_ycor(input: &str) -> (r: Result<(String, Expression), ParseError>)
    ensures
        agrees_rest(r, input@, query_rule(input@, Query::YCor)),
{
    query_rule_exec(input, Query::YCor)
}

/// Parses the query `HEADING`, in any case, at the start of `input`.
pub fn parse_heading(input: &str) -> (r: Result<(String, Expression), ParseError>)
    ensures
        agrees_rest(r, input@, query_rule(input@, Query::Heading)),
{
    query_rule_exec(input, Query::Heading)
}

/// Parses the query `COLOR`, in any case, at the start of `input`.
pub fn parse_color(input: &str) -> (r: Result<(String, Expression), ParseError>)
    ensures
        agrees_rest(r, input@, query_rule(input@, Query::Color)),
{
    query_rule_exec(input, Query::Color)
}

/// Parses a parenthesised expression at the start of `input`.
pub fn parse_parentheses(input: &str) -> (r: Result<(String, Expression), ParseError>)
    ensures
        agrees_rest(r, input@, parenthesised(input@, 0, input@.len() as int)),
{
    let s = to_chars(input);
    let r = parenthesised_exec(&s, 0, s.len());
    finish(&s, r)
}

/// Parses a binary operation at the start of `input`.
pub fn parse_binary_ops(input: &str) -> (r: Result<(String, Expression), ParseError>)
    ensures
        agrees_rest(r, input@, binary(input@, 0, input@.len() as int)),
{
    let s = to_chars(input);
    let r = binary_exec(&s, 0, s.len());
    finish(&s, r)
}

/// Parses an expression at the start of `input`.
pub fn parse_expression(input: &str) -> (r: Result<(String, Expression), ParseError>)
    ensures
        agrees_rest(r, input@, expression(input@, 0, input@.len() as int)),
{
    let s = to_chars(input);
    let r = expression_exec(&s, 0, s.len());
    finish(&s, r)
}

/// Parses one statement at the start of `input`, after checking the
/// arguments of its keyword, and the spaces after it.
pub fn parse_statement(input: &str) -> (r: Result<(String, Statement), ParseError>)
    ensures
        agrees_rest(r, input@, statement(input@, 0, input@.len() as int)),
{
    let s = to_chars(input);
    let r = statement_exec(&s, 0, s.len());
    finish(&s, r)
}

/// Parses `PENUP`, in any case, at the start of `input`.
pub fn parse_penup(input: &str) -> (r: Result<(String, Statement), ParseError>)
    ensures
        agrees_rest(r, input@, keyword_rule(input@, Keyword::PenUp)),
{
    keyword_rule_exec(input, Keyword::PenUp)
}

/// Parses `PENDOWN`, in any case, at the start of `input`.
pub fn parse_pendown(input: &str) -> (r: Result<(String, Statement), ParseError>)
    ensures
        agrees_rest(r, input@, keyword_rule(input@, Keyword::PenDown)),
{
    keyword_rule_exec(input, Keyword::PenDown)
}

/// Parses `FORWARD` and its argument at the start of `input`.
pub fn parse_forward(input: &str) -> (r: Result<(String, Statement), ParseError>)
    ensures
        agrees_rest(r, input@, keyword_rule(input@, Keyword::Forward)),
{
    keyword_rule_exec(input, Keyword::Forward)
}

/// Parses `BACK` and its argument at the start of `input`.
pub fn parse_back(input: &str) -> (r: Result<(String, Statement), ParseError>)
    ensures
        agrees_rest(r, input@, keyword_rule(input@, Keyword::Back)),
{
    keyword_rule_exec(input, Keyword::Back)
}

/// Parses `LEFT` and its argument at the start of `input`.
pub fn parse_left(input: &str) -> (r: Result<(String, Statement), ParseError>)
    ensures
        agrees_rest(r, input@, keyword_rule(input@, Keyword::Left)),
{
    keyword_rule_exec(input, Keyword::Left)
}

/// Parses `RIGHT` and its argument at the start of `input`.
pub fn parse_right(input: &str) -> (r: Result<(String, Statement), ParseError>)
    ensures
        agrees_rest(r, input@, keyword_rule(input@, Keyword::Right)),
{
    keyword_rule_exec(input, Keyword::Right)
}

/// Parses `TURN` and its argument at the start of `input`.
pub fn parse_turn(input: &str) -> (r: Result<(String, Statement), ParseError>)
    ensures
        agrees_rest(r, input@, keyword_rule(input@, Keyword::Turn)),
{
    keyword_rule_exec(input, Keyword::Turn)
}

/// Parses `SETX` and its argument at the start of `input`.
pub fn parse_setx(input: &str) -> (r: Result<(String, Statement), ParseError>)
    ensures
        agrees_rest(r, input@, keyword_rule(input@, Keyword::SetX)),
{
    keyword_rule_exec(input, Keyword::SetX)
}

/// Parses `SETY` and its argument at the start of `input`.
pub fn parse_sety(input: &str) -> (r: Result<(String, Statement), ParseError>)
    ensures
        agrees_rest(r, input@, keyword_rule(input@, Keyword::SetY)),
{
    keyword_rule_exec(input, Keyword::SetY)
}

/// Parses `SETHEADING` and its argument at the start of `input`.
pub fn parse_setheading(input: &str) -> (r: Result<(String, Statement), ParseError>)
    ensures
        agrees_rest(r, input@, keyword_rule(input@, Keyword::SetHeading)),
{
    keyword_rule_exec(input, Keyword::SetHeading)
}

/// Parses `SETPENCOLOR` and its argument at the start of `input`.
pub fn parse_setpencolor(input: &str) -> (r: Result<(String, Statement), ParseError>)
    ensures
        agrees_rest(r, input@, keyword_rule(input@, Keyword::SetPenColor)),
{
    keyword_rule_exec(input, Keyword::SetPenColor)
}

/// Parses `MAKE`, a name and a value at the start of `input`.
pub fn parse_make(input: &str) -> (r: Result<(String, Statement), ParseError>)
    ensures
        agrees_rest(r, input@, keyword_rule(input@, Keyword::Make)),
{
    keyword_rule_exec(input, Keyword::Make)
}

/// Parses `ADDASSIGN`, a name and a value at the start of `input`.
pub fn parse_addassign(input: &str) -> (r: Result<(String, Statement), ParseError>)
    ensures
        agrees_rest(r, input@, keyword_rule(input@, Keyword::AddAssign)),
{
    keyword_rule_exec(input, Keyword::AddAssign)
}

/// Parses `IF`, a condition and a block at the start of `input`.
pub fn parse_if(input: &str) -> (r: Result<(String, Statement), ParseError>)
    ensures
        agrees_rest(r, input@, keyword_rule(input@, Keyword::If)),
{
    keyword_rule_exec(input, Keyword::If)
}

/// Parses `WHILE`, a condition and a block at the start of `input`.
pub fn parse_while(input: &str) -> (r: Result<(String, Statement), ParseError>)
    ensures
        agrees_rest(r, input@, keyword_rule(input@, Keyword::While)),
{
    keyword_rule_exec(input, Keyword::While)
}

/// Parses `REPEAT`, a count and a block at the start of `input`.
pub fn parse_repeat(input: &str) -> (r: Result<(String, Statement), ParseError>)
    ensures
        agrees_rest(r, input@, keyword_rule(input@, Keyword::Repeat)),
{
    keyword_rule_exec(input, Keyword::Repeat)
}

/// Parses a procedure definition, `TO` to `END`, at the start of `input`.
pub fn parse_procedure_definition(input: &str) -> (r: Result<(String, Statement), ParseError>)
    ensures
        agrees_rest(r, input@, keyword_rule(input@, Keyword::To)),
{
    keyword_rule_exec(input, Keyword::To)
}

/// Parses a procedure call at the start of `input`.
pub fn parse_procedure_call(input: &str) -> (r: Result<(String, Statement), ParseError>)
    ensures
        agrees_rest(r, input@, call(input@, 0, input@.len() as int)),
{
    let s = to_chars(input);
    let r = call_exec(&s, 0, s.len());
    finish(&s, r)
}

} // verus!
