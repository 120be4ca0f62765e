use logo_turtle::ast::{Expression, Identifier, Statement};
use logo_turtle::evaluator::{
    apply_operator, evaluate_ast, evaluate_expression, evaluate_program, ProgramState, Value,
};
use logo_turtle::grammar::{Keyword, ParseError};
use logo_turtle::parser::{parse_expression, parse_program, parse_statement};
use logo_turtle::ast::Operator;
use logo_turtle::semantics::EvalError;
use logo_turtle::turtle::{Turtle, TurtleError};

const BUDGET: u64 = 1_000_000;

fn run(source: &str) -> Result<Turtle, EvalError> {
    let ast = parse_program(source.to_string()).expect("program parses");
    evaluate_program(Turtle::new(100, 100), ast, BUDGET)
}

fn lit(v: i32) -> Box<Expression> {
    Box::new(Expression::IntegerLiteral(v))
}

#[test]
fn division_rounds_toward_zero() {
    let state = ProgramState::new(Turtle::new(10, 10));
    let cases = [(7, 2, 3, 1), (-7, 2, -3, -1), (7, -2, -3, 1), (-7, -2, 3, -1), (6, 3, 2, 0)];
    for (a, b, q, r) in cases {
        let div = Expression::Division(lit(a), lit(b));
        let rem = Expression::Modulo(lit(a), lit(b));
        assert_eq!(evaluate_expression(&div, &state), Ok(Value::Integer(q)));
        assert_eq!(evaluate_expression(&rem, &state), Ok(Value::Integer(r)));
        assert_eq!(a / b, q);
        assert_eq!(a % b, r);
    }
}

#[test]
fn division_by_zero_fails_for_any_dividend() {
    let state = ProgramState::new(Turtle::new(10, 10));
    for a in [0, 1, -5, i32::MAX, i32::MIN] {
        let div = Expression::Division(lit(a), lit(0));
        let rem = Expression::Modulo(lit(a), lit(0));
        assert_eq!(evaluate_expression(&div, &state), Err(EvalError::DivisionByZero));
        assert_eq!(evaluate_expression(&rem, &state), Err(EvalError::DivisionByZero));
    }
}

#[test]
fn overflow_is_an_error() {
    assert_eq!(apply_operator(Operator::Divide, i32::MIN, -1), Err(EvalError::Overflow));
    assert_eq!(apply_operator(Operator::Modulo, i32::MIN, -1), Err(EvalError::Overflow));
    assert_eq!(apply_operator(Operator::Add, i32::MAX, 1), Err(EvalError::Overflow));
    assert_eq!(apply_operator(Operator::Multiply, 65536, 65536), Err(EvalError::Overflow));
    assert_eq!(apply_operator(Operator::Subtract, 3, 10), Ok(-7));
    assert_eq!(apply_operator(Operator::Multiply, -6, 7), Ok(-42));
}

#[test]
fn comparisons_and_logic_give_one_or_zero() {
    assert_eq!(apply_operator(Operator::Equal, 4, 4), Ok(1));
    assert_eq!(apply_operator(Operator::NotEqual, 4, 4), Ok(0));
    assert_eq!(apply_operator(Operator::GreaterThan, 5, 4), Ok(1));
    assert_eq!(apply_operator(Operator::LessThan, 5, 4), Ok(0));
    assert_eq!(apply_operator(Operator::And, 2, 0), Ok(0));
    assert_eq!(apply_operator(Operator::Or, 2, 0), Ok(1));
}

#[test]
fn string_operand_is_a_type_mismatch() {
    let state = ProgramState::new(Turtle::new(10, 10));
    let e = Expression::Addition(lit(1), Box::new(Expression::StringLiteral("abc".to_string())));
    assert_eq!(evaluate_expression(&e, &state), Err(EvalError::TypeMismatch));
}

#[test]
fn true_and_false_literals_are_integers() {
    let state = ProgramState::new(Turtle::new(10, 10));
    let t = Expression::StringLiteral("TrUe".to_string());
    let f = Expression::StringLiteral("false".to_string());
    let s = Expression::StringLiteral("truth".to_string());
    assert_eq!(evaluate_expression(&t, &state), Ok(Value::Integer(1)));
    assert_eq!(evaluate_expression(&f, &state), Ok(Value::Integer(0)));
    assert_eq!(evaluate_expression(&s, &state), Ok(Value::Text("truth".to_string())));
}

#[test]
fn comments_and_whitespace_parse_to_nothing() {
    assert_eq!(parse_program("// one\n   // two\r\n\n\t  ".to_string()), Ok(vec![]));
    assert_eq!(parse_program(String::new()), Ok(vec![]));
}

#[test]
fn trailing_input_is_a_syntax_error() {
    assert_eq!(parse_program("PENUP\n)".to_string()), Err(ParseError::Syntax { position: 6 }));
}

#[test]
fn comment_without_line_ending_is_left_over() {
    assert_eq!(parse_program("// note".to_string()), Err(ParseError::Syntax { position: 0 }));
}

#[test]
fn penup_with_an_argument_is_an_arity_error() {
    assert_eq!(
        parse_program("PENUP \"1\n".to_string()),
        Err(ParseError::Arity { keyword: Keyword::PenUp, expected: 0, given: 1 })
    );
}

#[test]
fn bare_number_after_penup_is_an_arity_error() {
    assert_eq!(
        parse_program("PENUP 1\n".to_string()),
        Err(ParseError::Arity { keyword: Keyword::PenUp, expected: 0, given: 1 })
    );
    assert_eq!(
        parse_program("PENDOWN\nFORWARD \"10\nPENUP 1\n".to_string()),
        Err(ParseError::Arity { keyword: Keyword::PenUp, expected: 0, given: 1 })
    );
}

#[test]
fn bare_number_as_the_only_argument_is_a_type_error() {
    assert_eq!(
        parse_program("FORWARD 10\n".to_string()),
        Err(ParseError::ArgumentType { keyword: Keyword::Forward })
    );
    assert_eq!(
        parse_program("MAKE \"x 5\n".to_string()),
        Err(ParseError::ArgumentType { keyword: Keyword::Make })
    );
    assert_eq!(
        parse_program("FORWARD \"10 5\n".to_string()),
        Err(ParseError::Arity { keyword: Keyword::Forward, expected: 1, given: 2 })
    );
}

#[test]
fn names_that_start_with_a_keyword_are_calls() {
    let source = "TO Rightangle\nRIGHT \"90\nEND\nRightangle\n";
    let ast = parse_program(source.to_string()).unwrap();
    assert_eq!(
        ast,
        vec![
            Statement::ProcedureDefinition {
                name: Identifier("Rightangle".to_string(), "".to_string()),
                parameters: vec![],
                body: vec![Statement::Right(lit(90))],
            },
            Statement::ProcedureCall {
                name: Identifier("Rightangle".to_string(), "".to_string()),
                arguments: vec![],
            },
        ]
    );
    let t = evaluate_program(Turtle::new(10, 10), ast, BUDGET).unwrap();
    assert_eq!(t.heading(), 90);
    for name in ["Leftover", "Backup", "Ending", "Toggle", "penupper"] {
        let ast = parse_program(format!("{}\n", name)).unwrap();
        assert_eq!(
            ast,
            vec![Statement::ProcedureCall {
                name: Identifier(name.to_string(), "".to_string()),
                arguments: vec![],
            }]
        );
    }
}

#[test]
fn blocks_on_one_line_still_parse() {
    let t = run("REPEAT \"2 [ FORWARD \"10 RIGHT \"90 ]\n").unwrap();
    assert_eq!((t.xcor(), t.ycor(), t.heading()), (60, 40, 180));
}

#[test]
fn forward_without_argument_is_an_arity_error() {
    assert_eq!(
        parse_program("FORWARD\n".to_string()),
        Err(ParseError::Arity { keyword: Keyword::Forward, expected: 1, given: 0 })
    );
    assert_eq!(
        parse_program("MAKE \"x\n".to_string()),
        Err(ParseError::Arity { keyword: Keyword::Make, expected: 2, given: 1 })
    );
}

#[test]
fn string_argument_to_a_command_is_a_type_error() {
    assert_eq!(
        parse_program("FORWARD \"ten\n".to_string()),
        Err(ParseError::ArgumentType { keyword: Keyword::Forward })
    );
    assert_eq!(
        parse_program("IF \"yes [ PENUP ]\n".to_string()),
        Err(ParseError::ArgumentType { keyword: Keyword::If })
    );
}

#[test]
fn integer_literal_out_of_range() {
    assert_eq!(parse_program("FORWARD \"2147483648\n".to_string()), Err(ParseError::IntegerRange));
    let ok = parse_expression("\"-2147483648").unwrap();
    assert_eq!(ok, (String::new(), Expression::IntegerLiteral(i32::MIN)));
    assert_eq!(parse_expression("\"2147483647").unwrap().1, Expression::IntegerLiteral(i32::MAX));
}

#[test]
fn keywords_are_case_insensitive_operators_are_not() {
    assert_eq!(
        parse_statement("forward \"5\n"),
        Ok((String::new(), Statement::Forward(lit(5))))
    );
    assert_eq!(parse_expression("eq \"1 \"1"), Err(ParseError::NoMatch));
    assert_eq!(
        parse_expression("EQ \"1 \"1").unwrap().1,
        Expression::Equals(lit(1), lit(1))
    );
}

#[test]
fn scenario_pen_up_then_forward() {
    let ast = parse_program("PENUP\nFORWARD \"10\n".to_string()).unwrap();
    assert_eq!(ast, vec![Statement::PenUp, Statement::Forward(lit(10))]);
    let t = evaluate_program(Turtle::new(100, 100), ast, BUDGET).unwrap();
    assert_eq!((t.xcor(), t.ycor(), t.heading()), (50, 40, 0));
    assert!(!t.pen_down());
}

#[test]
fn scenario_add_assign_then_if() {
    let t = run("MAKE \"x \"5\nADDASSIGN \"x \"3\nIF EQ :x \"8 [ PENDOWN ]\n").unwrap();
    assert!(t.pen_down());
    let off = run("MAKE \"x \"5\nADDASSIGN \"x \"2\nIF EQ :x \"8 [ PENDOWN ]\n").unwrap();
    assert!(!off.pen_down());
}

#[test]
fn scenario_square_procedure() {
    let source = "TO Sq \"size\nREPEAT :size [ FORWARD \"10 RIGHT \"90 ]\nEND\nSq \"4\n";
    let ast = parse_program(source.to_string()).unwrap();
    assert_eq!(ast.len(), 2);
    let t = evaluate_program(Turtle::new(100, 100), ast, BUDGET).unwrap();
    assert_eq!((t.xcor(), t.ycor(), t.heading()), (50, 50, 0));
    let three = run("TO Sq \"size\nREPEAT :size [ FORWARD \"10 RIGHT \"90 ]\nEND\nSq \"3\n").unwrap();
    assert_eq!((three.xcor(), three.ycor(), three.heading()), (60, 50, 270));
}

#[test]
fn repeat_zero_runs_nothing() {
    let t = run("REPEAT \"0 [ FORWARD \"10 ]\n").unwrap();
    assert_eq!((t.xcor(), t.ycor()), (50, 50));
    let t = run("REPEAT \"-3 [ FORWARD \"10 ]\n").unwrap();
    assert_eq!((t.xcor(), t.ycor()), (50, 50));
}

#[test]
fn procedure_parameter_shadows_then_restores() {
    let source = "MAKE \"x \"1\nTO F \"x\nSETX :x\nEND\nF \"2\nSETY :x\n";
    let t = run(source).unwrap();
    assert_eq!((t.xcor(), t.ycor()), (2, 1));
}

#[test]
fn add_assign_mutates_in_place() {
    let first = parse_program("MAKE \"x \"5\n".to_string()).unwrap();
    let second = parse_program("ADDASSIGN \"x \"3\n".to_string()).unwrap();
    let mut state = ProgramState::new(Turtle::new(10, 10));
    evaluate_ast(&first, &mut state, BUDGET).unwrap();
    assert_eq!(state.stack_len(), 1);
    evaluate_ast(&second, &mut state, BUDGET).unwrap();
    assert_eq!(state.stack_len(), 1);
    assert_eq!(state.get_error_handled(&"x".to_string()), Ok(Value::Integer(8)));
}

#[test]
fn undefined_names() {
    assert_eq!(run("FORWARD :nowhere\n").err(), Some(EvalError::VariableNotFound));
    assert_eq!(run("ADDASSIGN \"y \"1\n").err(), Some(EvalError::VariableNotFound));
    assert_eq!(run("Missing \"1\n").err(), Some(EvalError::ProcedureNotFound));
    let mut state = ProgramState::new(Turtle::new(10, 10));
    state.push("z".to_string(), None);
    assert_eq!(state.get_error_handled(&"z".to_string()), Err(EvalError::VariableNotInitialized));
}

#[test]
fn procedure_argument_count_must_match() {
    assert_eq!(
        run("TO F \"a \"b\nPENUP\nEND\nF \"1\n").err(),
        Some(EvalError::ArgumentCount { expected: 2, given: 1 })
    );
}

#[test]
fn procedure_parameter_must_be_a_name() {
    assert_eq!(run("TO F :a\nPENUP\nEND\n").err(), Some(EvalError::InvalidParameter));
}

#[test]
fn later_definition_replaces_earlier() {
    let t = run("TO F\nSETX \"1\nEND\nTO F\nSETX \"7\nEND\nF\n").unwrap();
    assert_eq!(t.xcor(), 7);
}

#[test]
fn while_loop_and_step_limit() {
    let t = run("MAKE \"i \"0\nWHILE LT :i \"3 [ ADDASSIGN \"i \"1 FORWARD \"1 ]\n").unwrap();
    assert_eq!(t.ycor(), 47);
    let ast = parse_program("WHILE \"1 [ ]\n".to_string()).unwrap();
    assert_eq!(
        evaluate_program(Turtle::new(10, 10), ast, 1000).err(),
        Some(EvalError::StepLimit)
    );
}

#[test]
fn pen_colour_must_be_in_palette() {
    assert_eq!(run("SETPENCOLOR \"16\n").err(), Some(EvalError::Turtle(TurtleError::InvalidColor(16))));
    let t = run("SETPENCOLOR \"3\n").unwrap();
    assert_eq!(t.color(), 3);
}

#[test]
fn queries_read_the_turtle() {
    let t = run("SETHEADING \"450\nSETX + XCOR \"5\nSETY HEADING\n").unwrap();
    assert_eq!((t.heading(), t.xcor(), t.ycor()), (90, 55, 90));
}

#[test]
fn make_pushes_a_new_binding() {
    let first = parse_program("MAKE \"x \"1\nMAKE \"x \"2\n".to_string()).unwrap();
    let mut state = ProgramState::new(Turtle::new(10, 10));
    evaluate_ast(&first, &mut state, BUDGET).unwrap();
    assert_eq!(state.stack_len(), 2);
    assert_eq!(state.get_error_handled(&"x".to_string()), Ok(Value::Integer(2)));
    state.pop();
    assert_eq!(state.get_error_handled(&"x".to_string()), Ok(Value::Integer(1)));
    state.set("x".to_string(), Some(Value::Integer(9)));
    assert_eq!(state.get(&"x".to_string()), Some(&Some(Value::Integer(9))));
    assert_eq!(state.stack_len(), 1);
}

#[test]
fn procedure_body_must_be_statements() {
    assert_eq!(
        parse_program("TO F\nPENUP )\nEND\n".to_string()),
        Err(ParseError::Syntax { position: 11 })
    );
}

#[test]
fn identifier_sigils() {
    let call = parse_statement("color\n").unwrap().1;
    assert_eq!(
        call,
        Statement::ProcedureCall { name: Identifier("color".to_string(), "Q".to_string()), arguments: vec![] }
    );
}
