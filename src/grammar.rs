//! The grammar of the language as mathematical functions on character
//! sequences. Each rule reads `s[p..lim]` and either matches a prefix of it,
//! giving the position after the match and the model of what it read, or
//! fails. `ParseError::NoMatch` is the failure that lets an enclosing rule try
//! its next alternative; every other error ends the parse.

use vstd::prelude::*;
use crate::ast::{Command, ExprM, IdentM, Operator, Query, StmtM};
use crate::text::{ascii_lower, is_digit, is_space, is_word_char};

verus! {

/// The keywords that open a statement, in the order they are tried.
#[derive(Debug, PartialEq, Eq, Clone, Copy, Structural)]
pub enum Keyword {
    PenUp,
    PenDown,
    Forward,
    Back,
    Left,
    Right,
    Turn,
    SetX,
    SetY,
    SetHeading,
    SetPenColor,
    Make,
    AddAssign,
    If,
    While,
    Repeat,
    To,
    End,
}

/// Why a parse failed.
#[derive(Debug, PartialEq, Eq, Clone, Copy, Structural)]
pub enum ParseError {
    /// The rule does not match at the position where it was tried.
    NoMatch,
    /// Input is left at `position` that no statement or comment matches.
    Syntax { position: usize },
    /// A statement keyword is followed by the wrong number of arguments.
    Arity { keyword: Keyword, expected: usize, given: usize },
    /// A statement keyword is given a string literal where it needs an integer.
    ArgumentType { keyword: Keyword },
    /// An integer literal does not fit in 32 signed bits.
    IntegerRange,
}

/// The classes of characters that the grammar scans runs of.
#[derive(Debug, PartialEq, Eq, Clone, Copy, Structural)]
pub enum CharClass {
    Space,
    Word,
    Digit,
    /// Anything but a carriage return or a newline.
    Line,
}

pub type Parsed<M> = Result<(int, M), ParseError>;

pub open spec fn in_class(k: CharClass, c: char) -> bool {
    match k {
        CharClass::Space => is_space(c),
        CharClass::Word => is_word_char(c),
        CharClass::Digit => is_digit(c),
        CharClass::Line => c != '\r' && c != '\n',
    }
}

/// The end of the run of characters of class `k` that starts at `p`.
pub open spec fn run_end(s: Seq<char>, p: int, lim: int, k: CharClass) -> int
    decreases lim - p,
{
    if 0 <= p < lim && in_class(k, s[p]) {
        run_end(s, p + 1, lim, k)
    } else {
        p
    }
}

/// One or more spaces at `p`: the position after them.
pub open spec fn spaced(s: Seq<char>, p: int, lim: int) -> Option<int> {
    let e = run_end(s, p, lim, CharClass::Space);
    if p < e {
        Some(e)
    } else {
        None
    }
}

/// The rest of the line at `p`: where it ends, unless a carriage return
/// stands there that no newline follows.
pub open spec fn rest_of_line(s: Seq<char>, p: int, lim: int) -> Option<int> {
    let e = run_end(s, p, lim, CharClass::Line);
    if e < lim && s[e] == '\r' && !(e + 1 < lim && s[e + 1] == '\n') {
        None
    } else {
        Some(e)
    }
}

pub open spec fn char_matches(c: char, w: char, no_case: bool) -> bool {
    if no_case {
        ascii_lower(c) == w
    } else {
        c == w
    }
}

/// Whether `w` stands at `p`; with `no_case`, `w` is lower case and ASCII
/// letters of the input match in either case.
pub open spec fn matches_at(s: Seq<char>, p: int, lim: int, w: Seq<char>, no_case: bool) -> bool {
    &&& 0 <= p
    &&& p + w.len() <= lim
    &&& forall|i: int| 0 <= i < w.len() ==> char_matches(#[trigger] s[p + i], w[i], no_case)
}

pub open spec fn keyword_text(k: Keyword) -> Seq<char> {
    match k {
        Keyword::PenUp => seq!['p', 'e', 'n', 'u', 'p'],
        Keyword::PenDown => seq!['p', 'e', 'n', 'd', 'o', 'w', 'n'],
        Keyword::Forward => seq!['f', 'o', 'r', 'w', 'a', 'r', 'd'],
        Keyword::Back => seq!['b', 'a', 'c', 'k'],
        Keyword::Left => seq!['l', 'e', 'f', 't'],
        Keyword::Right => seq!['r', 'i', 'g', 'h', 't'],
        Keyword::Turn => seq!['t', 'u', 'r', 'n'],
        Keyword::SetX => seq!['s', 'e', 't', 'x'],
        Keyword::SetY => seq!['s', 'e', 't', 'y'],
        Keyword::SetHeading => seq!['s', 'e', 't', 'h', 'e', 'a', 'd', 'i', 'n', 'g'],
        Keyword::SetPenColor => seq!['s', 'e', 't', 'p', 'e', 'n', 'c', 'o', 'l', 'o', 'r'],
        Keyword::Make => seq!['m', 'a', 'k', 'e'],
        Keyword::AddAssign => seq!['a', 'd', 'd', 'a', 's', 's', 'i', 'g', 'n'],
        Keyword::If => seq!['i', 'f'],
        Keyword::While => seq!['w', 'h', 'i', 'l', 'e'],
        Keyword::Repeat => seq!['r', 'e', 'p', 'e', 'a', 't'],
        Keyword::To => seq!['t', 'o'],
        Keyword::End => seq!['e', 'n', 'd'],
    }
}

/// The keywords in the order they are tried.
pub open spec fn keyword_order() -> Seq<Keyword> {
    seq![
        Keyword::PenUp, Keyword::PenDown, Keyword::Forward, Keyword::Back, Keyword::Left,
        Keyword::Right, Keyword::Turn, Keyword::SetX, Keyword::SetY, Keyword::SetHeading,
        Keyword::SetPenColor, Keyword::Make, Keyword::AddAssign, Keyword::If, Keyword::While,
        Keyword::Repeat, Keyword::To, Keyword::End,
    ]
}

/// Keyword `k` stands at `p` as a whole word: in either case, and with no
/// word character right after it.
pub open spec fn keyword_stands(s: Seq<char>, p: int, lim: int, k: Keyword) -> bool {
    let e = p + keyword_text(k).len();
    matches_at(s, p, lim, keyword_text(k), true) && !(e < lim && is_word_char(s[e]))
}

/// The first keyword, from the `i`-th on, that stands at `p` as a whole word.
pub open spec fn keyword_from(s: Seq<char>, p: int, lim: int, i: int) -> Option<Keyword>
    decreases keyword_order().len() - i,
{
    if 0 <= i < keyword_order().len() {
        if keyword_stands(s, p, lim, keyword_order()[i]) {
            Some(keyword_order()[i])
        } else {
            keyword_from(s, p, lim, i + 1)
        }
    } else {
        None
    }
}

pub open spec fn keyword_at(s: Seq<char>, p: int, lim: int) -> Option<Keyword> {
    keyword_from(s, p, lim, 0)
}

pub open spec fn command_of(k: Keyword) -> Option<Command> {
    match k {
        Keyword::Forward => Some(Command::Forward),
        Keyword::Back => Some(Command::Back),
        Keyword::Left => Some(Command::Left),
        Keyword::Right => Some(Command::Right),
        Keyword::Turn => Some(Command::Turn),
        Keyword::SetX => Some(Command::SetX),
        Keyword::SetY => Some(Command::SetY),
        Keyword::SetHeading => Some(Command::SetHeading),
        Keyword::SetPenColor => Some(Command::SetPenColor),
        _ => None,
    }
}

pub open spec fn operator_text(op: Operator) -> Seq<char> {
    match op {
        Operator::Add => seq!['+'],
        Operator::Subtract => seq!['-'],
        Operator::Multiply => seq!['*'],
        Operator::Divide => seq!['/'],
        Operator::Modulo => seq!['%'],
        Operator::Equal => seq!['E', 'Q'],
        Operator::NotEqual => seq!['N', 'E'],
        Operator::GreaterThan => seq!['G', 'T'],
        Operator::LessThan => seq!['L', 'T'],
        Operator::And => seq!['A', 'N', 'D'],
        Operator::Or => seq!['O', 'R'],
    }
}

/// The operators in the order they are tried.
pub open spec fn operator_order() -> Seq<Operator> {
    seq![
        Operator::Add, Operator::Subtract, Operator::Multiply, Operator::Divide,
        Operator::Modulo, Operator::Equal, Operator::NotEqual, Operator::GreaterThan,
        Operator::LessThan, Operator::And, Operator::Or,
    ]
}

/// The first operator, from the `i`-th on, whose token stands at `p`
/// (operator tokens are case-sensitive).
pub open spec fn operator_from(s: Seq<char>, p: int, lim: int, i: int) -> Option<Operator>
    decreases operator_order().len() - i,
{
    if 0 <= i < operator_order().len() {
        if matches_at(s, p, lim, operator_text(operator_order()[i]), false) {
            Some(operator_order()[i])
        } else {
            operator_from(s, p, lim, i + 1)
        }
    } else {
        None
    }
}

pub open spec fn query_text(q: Query) -> Seq<char> {
    match q {
        Query::XCor => seq!['x', 'c', 'o', 'r'],
        Query::YCor => seq!['y', 'c', 'o', 'r'],
        Query::Heading => seq!['h', 'e', 'a', 'd', 'i', 'n', 'g'],
        Query::Color => seq!['c', 'o', 'l', 'o', 'r'],
    }
}

pub open spec fn query_order() -> Seq<Query> {
    seq![Query::XCor, Query::YCor, Query::Heading, Query::Color]
}

/// The first query, from the `i`-th on, whose word stands at `p` in either case.
pub open spec fn query_from(s: Seq<char>, p: int, lim: int, i: int) -> Option<Query>
    decreases query_order().len() - i,
{
    if 0 <= i < query_order().len() {
        if matches_at(s, p, lim, query_text(query_order()[i]), true) {
            Some(query_order()[i])
        } else {
            query_from(s, p, lim, i + 1)
        }
    } else {
        None
    }
}

/// Whether a name, read without regard to ASCII case, is a query word.
pub open spec fn is_query_word(name: Seq<char>) -> bool {
    exists|q: Query| name.map_values(|c: char| ascii_lower(c)) == #[trigger] query_text(q)
}

/// The value of the decimal digits `s[a..b]`.
pub open spec fn decimal(s: Seq<char>, a: int, b: int) -> nat
    decreases b - a,
{
    if a < b {
        decimal(s, a, b - 1) * 10 + ((s[b - 1] as u32) - ('0' as u32)) as nat
    } else {
        0
    }
}

/// A comment: `//`, the rest of the line, and its line ending.
pub open spec fn comment(s: Seq<char>, p: int, lim: int) -> Parsed<()> {
    if matches_at(s, p, lim, seq!['/', '/'], false) {
        let e = run_end(s, p + 2, lim, CharClass::Line);
        if e < lim && s[e] == '\n' {
            Ok((e + 1, ()))
        } else if e + 1 < lim && s[e] == '\r' && s[e + 1] == '\n' {
            Ok((e + 2, ()))
        } else {
            Err(ParseError::NoMatch)
        }
    } else {
        Err(ParseError::NoMatch)
    }
}

/// An identifier: an optional `"` or `:` and a run of word characters. A
/// bare query word gets the sigil `Q`.
pub open spec fn identifier(s: Seq<char>, p: int, lim: int) -> Parsed<IdentM> {
    let sigil = if 0 <= p < lim && (s[p] == '"' || s[p] == ':') {
        seq![s[p]]
    } else {
        seq![]
    };
    let q = p + sigil.len();
    let e = run_end(s, q, lim, CharClass::Word);
    if q < e {
        let name = s.subrange(q, e);
        let mark = if sigil.len() == 0 && is_query_word(name) {
            seq!['Q']
        } else {
            sigil
        };
        Ok((e, (name, mark)))
    } else {
        Err(ParseError::NoMatch)
    }
}

/// An integer literal: `"`, an optional `-`, and decimal digits. Digits that
/// do not fit in 32 signed bits end the parse.
pub open spec fn integer(s: Seq<char>, p: int, lim: int) -> Parsed<ExprM> {
    if 0 <= p < lim && s[p] == '"' {
        let neg = p + 1 < lim && s[p + 1] == '-';
        let d = if neg {
            p + 2
        } else {
            p + 1
        };
        let e = run_end(s, d, lim, CharClass::Digit);
        if d < e {
            let v: int = if neg {
                -decimal(s, d, e)
            } else {
                decimal(s, d, e) as int
            };
            if i32::MIN <= v <= i32::MAX {
                Ok((e, ExprM::Integer(v as i32)))
            } else {
                Err(ParseError::IntegerRange)
            }
        } else {
            Err(ParseError::NoMatch)
        }
    } else {
        Err(ParseError::NoMatch)
    }
}

/// A word after the sigil `sigil`: a string literal after `"`, a variable
/// reference after `:`.
pub open spec fn sigil_word(s: Seq<char>, p: int, lim: int, sigil: char) -> Option<(int, Seq<char>)> {
    if 0 <= p < lim && s[p] == sigil {
        let e = run_end(s, p + 1, lim, CharClass::Word);
        if p + 1 < e {
            Some((e, s.subrange(p + 1, e)))
        } else {
            None
        }
    } else {
        None
    }
}

pub open spec fn string_literal(s: Seq<char>, p: int, lim: int) -> Parsed<ExprM> {
    match sigil_word(s, p, lim, '"') {
        Some((e, w)) => Ok((e, ExprM::Text(w))),
        None => Err(ParseError::NoMatch),
    }
}

pub open spec fn variable(s: Seq<char>, p: int, lim: int) -> Parsed<ExprM> {
    match sigil_word(s, p, lim, ':') {
        Some((e, w)) => Ok((e, ExprM::Variable(w))),
        None => Err(ParseError::NoMatch),
    }
}

pub open spec fn query(s: Seq<char>, p: int, lim: int) -> Parsed<ExprM> {
    match query_from(s, p, lim, 0) {
        Some(q) => Ok((p + query_text(q).len(), ExprM::Query(q))),
        None => Err(ParseError::NoMatch),
    }
}

/// Ordered choice: `second` is tried only where `first` does not match.
pub open spec fn or_else<M>(first: Parsed<M>, second: Parsed<M>) -> Parsed<M> {
    match first {
        Err(ParseError::NoMatch) => second,
        _ => first,
    }
}

/// A position that a repeated rule may continue from: it moved forward.
pub open spec fn advanced(p: int, r: int, lim: int) -> bool {
    p < r <= lim
}

/// An expression: a binary operation, tried first, or a terminal value.
pub open spec fn expression(s: Seq<char>, p: int, lim: int) -> Parsed<ExprM>
    decreases lim - p, 3nat,
{
    or_else(binary(s, p, lim), value(s, p, lim))
}

/// A terminal value: a parenthesised expression, a query, an integer literal,
/// a variable reference or a string literal, tried in this order.
pub open spec fn value(s: Seq<char>, p: int, lim: int) -> Parsed<ExprM>
    decreases lim - p, 2nat,
{
    or_else(
        parenthesised(s, p, lim),
        or_else(
            query(s, p, lim),
            or_else(integer(s, p, lim), or_else(variable(s, p, lim), string_literal(s, p, lim))),
        ),
    )
}

pub open spec fn parenthesised(s: Seq<char>, p: int, lim: int) -> Parsed<ExprM>
    decreases lim - p, 1nat,
{
    if 0 <= p < lim && s[p] == '(' {
        match expression(s, p + 1, lim) {
            Ok((q, e)) => if advanced(p, q, lim) && q < lim && s[q] == ')' {
                Ok((q + 1, e))
            } else {
                Err(ParseError::NoMatch)
            },
            Err(x) => Err(x),
        }
    } else {
        Err(ParseError::NoMatch)
    }
}

/// A binary operation in prefix form: the operator token, spaces, the left
/// operand, spaces, the right operand.
pub open spec fn binary(s: Seq<char>, p: int, lim: int) -> Parsed<ExprM>
    decreases lim - p, 2nat,
{
    match operator_from(s, p, lim, 0) {
        Some(op) => {
            proof {
                lemma_operator_from(s, p, lim, 0);
                lemma_run_end(s, p + operator_text(op).len(), lim, CharClass::Space);
            }
            match spaced(s, p + operator_text(op).len(), lim) {
                Some(q) => match expression(s, q, lim) {
                    Ok((r, left)) => if advanced(p, r, lim) {
                        proof {
                            lemma_run_end(s, r, lim, CharClass::Space);
                        }
                        match spaced(s, r, lim) {
                            Some(t) => match expression(s, t, lim) {
                                Ok((u, right)) => Ok(
                                    (u, ExprM::Binary(op, Box::new(left), Box::new(right))),
                                ),
                                Err(x) => Err(x),
                            },
                            None => Err(ParseError::NoMatch),
                        }
                    } else {
                        Err(ParseError::NoMatch)
                    },
                    Err(x) => Err(x),
                },
                None => Err(ParseError::NoMatch),
            }
        },
        None => Err(ParseError::NoMatch),
    }
}

/// Zero or more arguments on `s[p..lim]`, each after one or more spaces; the
/// first place where no further argument follows ends the list.
pub open spec fn arguments(s: Seq<char>, p: int, lim: int) -> Parsed<Seq<ExprM>>
    decreases lim - p,
{
    match spaced(s, p, lim) {
        Some(q) => match expression(s, q, lim) {
            Ok((r, e)) => if advanced(p, r, lim) {
                match arguments(s, r, lim) {
                    Ok((t, rest)) => Ok((t, seq![e] + rest)),
                    Err(x) => Err(x),
                }
            } else {
                Ok((p, seq![]))
            },
            Err(ParseError::NoMatch) => Ok((p, seq![])),
            Err(x) => Err(x),
        },
        None => Ok((p, seq![])),
    }
}

/// Whether a bare number follows the arguments that end at `q`, on the line
/// that ends at `e`: a number written without its `"`, which counts as one
/// more argument of the wrong kind.
pub open spec fn stray_number(s: Seq<char>, q: int, e: int) -> bool {
    let t = run_end(s, q, e, CharClass::Space);
    0 <= t < e && is_digit(s[t])
}

/// The number and kind of arguments that keyword `k` takes, checked on the
/// arguments found on its line and on a bare number after them.
pub open spec fn arity_check(k: Keyword, args: Seq<ExprM>, stray: bool) -> Result<(), ParseError> {
    let n = (args.len() + if stray {
        1nat
    } else {
        0nat
    }) as usize;
    match k {
        Keyword::PenUp | Keyword::PenDown => if n != 0 {
            Err(ParseError::Arity { keyword: k, expected: 0, given: n })
        } else {
            Ok(())
        },
        Keyword::Make | Keyword::AddAssign => if n != 2 {
            Err(ParseError::Arity { keyword: k, expected: 2, given: n })
        } else if stray {
            Err(ParseError::ArgumentType { keyword: k })
        } else {
            Ok(())
        },
        Keyword::To | Keyword::End => Ok(()),
        _ => if n != 1 {
            Err(ParseError::Arity { keyword: k, expected: 1, given: n })
        } else if stray || args[0] is Text {
            Err(ParseError::ArgumentType { keyword: k })
        } else {
            Ok(())
        },
    }
}

/// The check made before a statement is parsed: a statement keyword at `p`
/// must have the arguments it takes on the rest of its line, and no bare
/// number after them.
pub open spec fn statement_check(s: Seq<char>, p: int, lim: int) -> Result<(), ParseError> {
    match keyword_at(s, p, lim) {
        Some(k) => {
            let a = p + keyword_text(k).len();
            match rest_of_line(s, a, lim) {
                Some(e) => match arguments(s, a, e) {
                    Ok((q, args)) => arity_check(k, args, stray_number(s, q, e)),
                    Err(x) => Err(x),
                },
                None => Ok(()),
            }
        },
        None => Ok(()),
    }
}

/// The first place at or after `p` where the line `END` and its newline stand.
pub open spec fn end_marker(s: Seq<char>, p: int, lim: int) -> Option<int>
    decreases lim - p,
{
    if 0 <= p && p + 4 <= lim {
        if matches_at(s, p, lim, seq!['E', 'N', 'D', '\n'], false) {
            Some(p)
        } else {
            end_marker(s, p + 1, lim)
        }
    } else {
        None
    }
}

/// A procedure call: a name and the arguments on the rest of its line.
pub open spec fn call(s: Seq<char>, p: int, lim: int) -> Parsed<StmtM> {
    match identifier(s, p, lim) {
        Ok((r, id)) => match rest_of_line(s, r, lim) {
            Some(e) => match arguments(s, r, e) {
                Ok((_, args)) => Ok((e, StmtM::Call(id, args))),
                Err(x) => Err(x),
            },
            None => Err(ParseError::NoMatch),
        },
        Err(x) => Err(x),
    }
}

/// A statement: the check of its arguments, then the statement of its
/// keyword or else a procedure call, and the spaces after it.
pub open spec fn statement(s: Seq<char>, p: int, lim: int) -> Parsed<StmtM>
    decreases lim - p, 5nat,
{
    match statement_check(s, p, lim) {
        Err(x) => Err(x),
        Ok(()) => {
            let r = match keyword_at(s, p, lim) {
                Some(k) => or_else(keyword_statement(s, p, lim, k), call(s, p, lim)),
                None => call(s, p, lim),
            };
            match r {
                Ok((q, st)) => Ok((run_end(s, q, lim, CharClass::Space), st)),
                Err(x) => Err(x),
            }
        },
    }
}

/// The statement that keyword `k`, standing at `p`, opens.
pub open spec fn keyword_statement(s: Seq<char>, p: int, lim: int, k: Keyword) -> Parsed<StmtM>
    decreases lim - p, 4nat,
{
    let a = p + keyword_text(k).len();
    if !(0 <= p && a <= lim) {
        Err(ParseError::NoMatch)
    } else {
        proof {
            lemma_run_end(s, a, lim, CharClass::Space);
        }
        match k {
            Keyword::PenUp => Ok((a, StmtM::PenUp)),
            Keyword::PenDown => Ok((a, StmtM::PenDown)),
            Keyword::Make | Keyword::AddAssign => match spaced(s, a, lim) {
                Some(q) => match identifier(s, q, lim) {
                    Ok((r, id)) => match spaced(s, r, lim) {
                        Some(t) => match expression(s, t, lim) {
                            Ok((u, e)) => Ok(
                                (
                                    u,
                                    if k == Keyword::Make {
                                        StmtM::Make(id, e)
                                    } else {
                                        StmtM::AddAssign(id, e)
                                    },
                                ),
                            ),
                            Err(x) => Err(x),
                        },
                        None => Err(ParseError::NoMatch),
                    },
                    Err(x) => Err(x),
                },
                None => Err(ParseError::NoMatch),
            },
            Keyword::If | Keyword::While | Keyword::Repeat => match spaced(s, a, lim) {
                Some(q) => match expression(s, q, lim) {
                    Ok((r, c)) => if advanced(p, r, lim) {
                        proof {
                            lemma_run_end(s, r, lim, CharClass::Space);
                        }
                        match block(s, run_end(s, r, lim, CharClass::Space), lim) {
                            Ok((u, b)) => Ok(
                                (
                                    u,
                                    if k == Keyword::If {
                                        StmtM::If(c, b)
                                    } else if k == Keyword::While {
                                        StmtM::While(c, b)
                                    } else {
                                        StmtM::Repeat(c, b)
                                    },
                                ),
                            ),
                            Err(x) => Err(x),
                        }
                    } else {
                        Err(ParseError::NoMatch)
                    },
                    Err(x) => Err(x),
                },
                None => Err(ParseError::NoMatch),
            },
            Keyword::To => definition(s, p, lim),
            Keyword::End => Err(ParseError::NoMatch),
            _ => match spaced(s, a, lim) {
                Some(q) => match expression(s, q, lim) {
                    Ok((r, e)) => Ok((r, StmtM::Command(command_of(k).unwrap(), e))),
                    Err(x) => Err(x),
                },
                None => Err(ParseError::NoMatch),
            },
        }
    }
}

/// A block: `[`, statements, optional spaces, `]`.
pub open spec fn block(s: Seq<char>, p: int, lim: int) -> Parsed<Seq<StmtM>>
    decreases lim - p, 7nat,
{
    if 0 <= p < lim && s[p] == '[' {
        match block_items(s, p + 1, lim) {
            Ok((q, b)) => {
                let t = run_end(s, q, lim, CharClass::Space);
                if t < lim && s[t] == ']' {
                    Ok((t + 1, b))
                } else {
                    Err(ParseError::NoMatch)
                }
            },
            Err(x) => Err(x),
        }
    } else {
        Err(ParseError::NoMatch)
    }
}

/// The statements of a block, each after optional spaces, up to the first
/// place where no statement matches.
pub open spec fn block_items(s: Seq<char>, p: int, lim: int) -> Parsed<Seq<StmtM>>
    decreases lim - p, 6nat,
{
    if !(0 <= p <= lim) {
        Err(ParseError::NoMatch)
    } else {
        proof {
            lemma_run_end(s, p, lim, CharClass::Space);
        }
        match statement(s, run_end(s, p, lim, CharClass::Space), lim) {
            Ok((r, st)) => if advanced(p, r, lim) {
                match block_items(s, r, lim) {
                    Ok((t, rest)) => Ok((t, seq![st] + rest)),
                    Err(x) => Err(x),
                }
            } else {
                Err(ParseError::NoMatch)
            },
            Err(ParseError::NoMatch) => Ok((p, seq![])),
            Err(x) => Err(x),
        }
    }
}

/// The comments and statements of a program or a procedure body, each after
/// optional spaces, up to the first place where neither matches.
pub open spec fn program_items(s: Seq<char>, p: int, lim: int) -> Parsed<Seq<StmtM>>
    decreases lim - p, 6nat,
{
    if !(0 <= p <= lim) {
        Err(ParseError::NoMatch)
    } else {
        proof {
            lemma_run_end(s, p, lim, CharClass::Space);
        }
        let q = run_end(s, p, lim, CharClass::Space);
        match comment(s, q, lim) {
            Ok((r, _)) => if advanced(p, r, lim) {
                program_items(s, r, lim)
            } else {
                Err(ParseError::NoMatch)
            },
            Err(_) => match statement(s, q, lim) {
                Ok((r, st)) => if advanced(p, r, lim) {
                    match program_items(s, r, lim) {
                        Ok((t, rest)) => Ok((t, seq![st] + rest)),
                        Err(x) => Err(x),
                    }
                } else {
                    Err(ParseError::NoMatch)
                },
                Err(ParseError::NoMatch) => Ok((p, seq![])),
                Err(x) => Err(x),
            },
        }
    }
}

/// A procedure definition: `TO`, spaces, the name, the parameters on the
/// rest of its line, and the body up to the line `END`. The body must be
/// statements, comments and spaces only.
pub open spec fn definition(s: Seq<char>, p: int, lim: int) -> Parsed<StmtM>
    decreases lim - p, 3nat,
{
    let a = p + 2;
    if !(0 <= p && a <= lim) {
        Err(ParseError::NoMatch)
    } else {
        match spaced(s, a, lim) {
            Some(q) => match identifier(s, q, lim) {
                Ok((r, id)) => match rest_of_line(s, r, lim) {
                    Some(e) => match arguments(s, r, e) {
                        Ok((_, params)) => {
                            let b = run_end(s, e, lim, CharClass::Space);
                            match end_marker(s, b, lim) {
                                Some(m) => {
                                    proof {
                                        lemma_definition_positions(s, p, lim);
                                    }
                                    match program_items(s, b, m) {
                                        Ok((t, body)) => {
                                            let u = run_end(s, t, m, CharClass::Space);
                                            if u == m {
                                                Ok((m + 3, StmtM::Define(id, params, body)))
                                            } else {
                                                Err(ParseError::Syntax { position: u as usize })
                                            }
                                        },
                                        Err(x) => Err(x),
                                    }
                                },
                                None => Err(ParseError::NoMatch),
                            }
                        },
                        Err(x) => Err(x),
                    },
                    None => Err(ParseError::NoMatch),
                },
                Err(x) => Err(x),
            },
            None => Err(ParseError::NoMatch),
        }
    }
}

/// A whole program: its comments and statements, with nothing but spaces
/// left after them.
pub open spec fn program(s: Seq<char>) -> Result<Seq<StmtM>, ParseError> {
    match program_items(s, 0, s.len() as int) {
        Ok((t, b)) => {
            let e = run_end(s, t, s.len() as int, CharClass::Space);
            if e == s.len() {
                Ok(b)
            } else {
                Err(ParseError::Syntax { position: e as usize })
            }
        },
        Err(x) => Err(x),
    }
}

pub proof fn lemma_end_marker(s: Seq<char>, p: int, lim: int)
    ensures
        end_marker(s, p, lim) matches Some(m) ==> p <= m && m + 4 <= lim && matches_at(
            s,
            m,
            lim,
            seq!['E', 'N', 'D', '\n'],
            false,
        ),
    decreases lim - p,
{
    if 0 <= p && p + 4 <= lim {
        lemma_end_marker(s, p + 1, lim);
    }
}

pub proof fn lemma_identifier(s: Seq<char>, p: int, lim: int)
    requires
        0 <= p <= lim,
    ensures
        identifier(s, p, lim) matches Ok((r, _)) ==> p < r <= lim,
{
    let q = if p < lim && (s[p] == '"' || s[p] == ':') {
        p + 1
    } else {
        p
    };
    lemma_run_end(s, q, lim, CharClass::Word);
}

/// The positions in a procedure definition grow: the body lies strictly
/// inside `s[p..lim]`.
pub proof fn lemma_definition_positions(s: Seq<char>, p: int, lim: int)
    requires
        0 <= p,
        p + 2 <= lim,
    ensures
        spaced(s, p + 2, lim) matches Some(q) ==> identifier(s, q, lim) matches Ok((r, _))
            ==> rest_of_line(s, r, lim) matches Some(e) ==> end_marker(
            s,
            run_end(s, e, lim, CharClass::Space),
            lim,
        ) matches Some(m) ==> {
            &&& p < run_end(s, e, lim, CharClass::Space) <= m
            &&& m + 4 <= lim
        },
{
    lemma_run_end(s, p + 2, lim, CharClass::Space);
    if let Some(q) = spaced(s, p + 2, lim) {
        lemma_identifier(s, q, lim);
        if let Ok((r, _)) = identifier(s, q, lim) {
            lemma_run_end(s, r, lim, CharClass::Line);
            let e = run_end(s, r, lim, CharClass::Line);
            lemma_run_end(s, e, lim, CharClass::Space);
            lemma_end_marker(s, run_end(s, e, lim, CharClass::Space), lim);
        }
    }
}

/// The statement of keyword `k` at the start of `s`, with no check of its
/// arguments and no spaces read after it.
pub open spec fn keyword_rule(s: Seq<char>, k: Keyword) -> Parsed<StmtM> {
    if keyword_stands(s, 0, s.len() as int, k) {
        keyword_statement(s, 0, s.len() as int, k)
    } else {
        Err(ParseError::NoMatch)
    }
}

/// The query `q` at the start of `s`.
pub open spec fn query_rule(s: Seq<char>, q: Query) -> Parsed<ExprM> {
    if matches_at(s, 0, s.len() as int, query_text(q), true) {
        Ok((query_text(q).len() as int, ExprM::Query(q)))
    } else {
        Err(ParseError::NoMatch)
    }
}

/// `acc` followed by what a repeated rule read after it.
pub open spec fn glue<M>(acc: Seq<M>, r: Parsed<Seq<M>>) -> Parsed<Seq<M>> {
    match r {
        Ok((t, rest)) => Ok((t, acc + rest)),
        Err(x) => Err(x),
    }
}

pub proof fn lemma_glue<M>(acc: Seq<M>, e: M, r: Parsed<Seq<M>>)
    ensures
        glue(acc, glue(seq![e], r)) == glue(acc.push(e), r),
{
    if let Ok((t, rest)) = r {
        assert(acc + (seq![e] + rest) =~= acc.push(e) + rest);
    }
}

pub proof fn lemma_decimal_grows(s: Seq<char>, a: int, i: int, j: int)
    requires
        a <= i <= j,
        forall|k: int| a <= k < j ==> is_digit(#[trigger] s[k]),
    ensures
        decimal(s, a, i) <= decimal(s, a, j),
    decreases j - i,
{
    if i < j {
        lemma_decimal_grows(s, a, i, j - 1);
    }
}

pub proof fn lemma_run_end(s: Seq<char>, p: int, lim: int, k: CharClass)
    requires
        0 <= p <= lim,
    ensures
        p <= run_end(s, p, lim, k) <= lim,
        forall|i: int| p <= i < run_end(s, p, lim, k) ==> in_class(k, #[trigger] s[i]),
        run_end(s, p, lim, k) < lim ==> !in_class(k, s[run_end(s, p, lim, k)]),
    decreases lim - p,
{
    if p < lim && in_class(k, s[p]) {
        lemma_run_end(s, p + 1, lim, k);
    }
}

pub proof fn lemma_operator_from(s: Seq<char>, p: int, lim: int, i: int)
    ensures
        operator_from(s, p, lim, i) matches Some(op) ==> matches_at(
            s,
            p,
            lim,
            operator_text(op),
            false,
        ) && operator_text(op).len() >= 1,
    decreases operator_order().len() - i,
{
    if 0 <= i < operator_order().len() {
        lemma_operator_from(s, p, lim, i + 1);
    }
}

} // verus!
