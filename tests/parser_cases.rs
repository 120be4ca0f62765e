use logo_turtle::ast::{Expression, Identifier, Statement};
use logo_turtle::parser::{
    parse_addassign, parse_back, parse_binary_ops, parse_color, parse_comment, parse_forward,
    parse_heading, parse_identifier, parse_if, parse_integer, parse_left, parse_make,
    parse_parentheses, parse_pendown, parse_penup, parse_procedure_call,
    parse_procedure_definition, parse_repeat, parse_right, parse_setheading, parse_setpencolor,
    parse_setx, parse_sety, parse_string, parse_turn, parse_variable, parse_while, parse_xcor,
    parse_ycor,
};

#[test]
fn oldparser2_test_parse_comment() {
    let input = "// This is a comment\n";
    let expected = ();
    let result = parse_comment(input);

    assert_eq!(result, Ok(("".to_string(), expected)));
}

#[test]
fn oldparser2_test_parse_identifier() {
    let input = "\"foo";
    let expected = Identifier("foo".to_string(), "\"".to_string());
    let result = parse_identifier(input);

    assert_eq!(result, Ok(("".to_string(), expected)));
}

#[test]
fn oldparser2_test_parse_integer() {
    let input = "\"123";
    let expected = Expression::IntegerLiteral(123);
    let result = parse_integer(input);

    assert_eq!(result, Ok(("".to_string(), expected)));
}

#[test]
fn oldparser2_test_parse_string() {
    let input = "\"hello";
    let expected = Expression::StringLiteral("hello".to_string());
    let result = parse_string(input);

    assert_eq!(result, Ok(("".to_string(), expected)));
}

#[test]
fn oldparser2_test_parse_variable() {
    let input = ":foo";
    let expected = Expression::VariableReference("foo".to_string());
    let result = parse_variable(input);

    assert_eq!(result, Ok(("".to_string(), expected)));
}

#[test]
fn oldparser2_test_parse_xcor() {
    let input = "XCOR";
    let expected = Expression::QueryXCor;
    let result = parse_xcor(input);

    assert_eq!(result, Ok(("".to_string(), expected)));
}

#[test]
fn oldparser2_test_parse_ycor() {
    let input = "YCOR";
    let expected = Expression::QueryYCor;
    let result = parse_ycor(input);

    assert_eq!(result, Ok(("".to_string(), expected)));
}

#[test]
fn oldparser2_test_parse_heading() {
    let input = "HEADING";
    let expected = Expression::QueryHeading;
    let result = parse_heading(input);

    assert_eq!(result, Ok(("".to_string(), expected)));
}

#[test]
fn oldparser2_test_parse_color() {
    let input = "COLOR";
    let expected = Expression::QueryColor;
    let result = parse_color(input);

    assert_eq!(result, Ok(("".to_string(), expected)));
}

#[test]
fn oldparser2_test_parse_parentheses() {
    let input = "(\"10)";
    let expected = Expression::IntegerLiteral(10);
    let result = parse_parentheses(input);

    assert_eq!(result, Ok(("".to_string(), expected)));
}

#[test]
fn oldparser2_test_parse_addition() {
    let input = "+ \"10 \"20";
    let expected = Expression::Addition(
        Box::new(Expression::IntegerLiteral(10)),
        Box::new(Expression::IntegerLiteral(20)),
    );
    let result = parse_binary_ops(input);

    assert_eq!(result, Ok(("".to_string(), expected)));
}

#[test]
fn oldparser2_test_parse_subtraction() {
    let input = "- \"10 \"20";
    let expected = Expression::Subtraction(
        Box::new(Expression::IntegerLiteral(10)),
        Box::new(Expression::IntegerLiteral(20)),
    );
    let result = parse_binary_ops(input);

    assert_eq!(result, Ok(("".to_string(), expected)));
}

#[test]
fn oldparser2_test_parse_multiplication() {
    let input = "* \"10 \"20";
    let expected = Expression::Multiplication(
        Box::new(Expression::IntegerLiteral(10)),
        Box::new(Expression::IntegerLiteral(20)),
    );
    let result = parse_binary_ops(input);

    assert_eq!(result, Ok(("".to_string(), expected)));
}

#[test]
fn oldparser2_test_parse_division() {
    let input = "/ \"10 \"20";
    let expected = Expression::Division(
        Box::new(Expression::IntegerLiteral(10)),
        Box::new(Expression::IntegerLiteral(20)),
    );
    let result = parse_binary_ops(input);

    assert_eq!(result, Ok(("".to_string(), expected)));
}

#[test]
fn oldparser2_test_parse_modulo() {
    let input = "% \"10 \"20";
    let expected = Expression::Modulo(
        Box::new(Expression::IntegerLiteral(10)),
        Box::new(Expression::IntegerLiteral(20)),
    );
    let result = parse_binary_ops(input);

    assert_eq!(result, Ok(("".to_string(), expected)));
}

#[test]
fn oldparser2_test_parse_equals() {
    let input = "EQ \"10 \"20";
    let expected = Expression::Equals(
        Box::new(Expression::IntegerLiteral(10)),
        Box::new(Expression::IntegerLiteral(20)),
    );
    let result = parse_binary_ops(input);

    assert_eq!(result, Ok(("".to_string(), expected)));
}

#[test]
fn oldparser2_test_parse_not_equals() {
    let input = "NE \"10 \"20";
    let expected = Expression::NotEquals(
        Box::new(Expression::IntegerLiteral(10)),
        Box::new(Expression::IntegerLiteral(20)),
    );
    let result = parse_binary_ops(input);

    assert_eq!(result, Ok(("".to_string(), expected)));
}

#[test]
fn oldparser2_test_parse_greater_than() {
    let input = "GT \"10 \"20";
    let expected = Expression::GreaterThan(
        Box::new(Expression::IntegerLiteral(10)),
        Box::new(Expression::IntegerLiteral(20)),
    );
    let result = parse_binary_ops(input);

    assert_eq!(result, Ok(("".to_string(), expected)));
}

#[test]
fn oldparser2_test_parse_less_than() {
    let input = "LT \"10 \"20";
    let expected = Expression::LessThan(
        Box::new(Expression::IntegerLiteral(10)),
        Box::new(Expression::IntegerLiteral(20)),
    );
    let result = parse_binary_ops(input);

    assert_eq!(result, Ok(("".to_string(), expected)));
}

#[test]
fn oldparser2_test_parse_and() {
    let input = "AND \"10 \"20";
    let expected = Expression::And(
        Box::new(Expression::IntegerLiteral(10)),
        Box::new(Expression::IntegerLiteral(20)),
    );
    let result = parse_binary_ops(input);

    assert_eq!(result, Ok(("".to_string(), expected)));
}

#[test]
fn oldparser2_test_parse_or() {
    let input = "OR \"10 \"20";
    let expected = Expression::Or(
        Box::new(Expression::IntegerLiteral(10)),
        Box::new(Expression::IntegerLiteral(20)),
    );
    let result = parse_binary_ops(input);

    assert_eq!(result, Ok(("".to_string(), expected)));
}

#[test]
fn oldparser2_test_parse_penup() {
    let input = "PENUP";
    let expected = Statement::PenUp;
    let result = parse_penup(input);

    assert_eq!(result, Ok(("".to_string(), expected)));
}

#[test]
fn oldparser2_test_parse_pendown() {
    let input = "PENDOWN";
    let expected = Statement::PenDown;
    let result = parse_pendown(input);

    assert_eq!(result, Ok(("".to_string(), expected)));
}

#[test]
fn oldparser2_test_parse_forward() {
    let input = "FORWARD \"10";
    let expected = Statement::Forward(Box::new(Expression::IntegerLiteral(10)));
    let result = parse_forward(input);

    assert_eq!(result, Ok(("".to_string(), expected)));
}

#[test]
fn oldparser2_test_parse_back() {
    let input = "BACK \"10";
    let expected = Statement::Back(Box::new(Expression::IntegerLiteral(10)));
    let result = parse_back(input);

    assert_eq!(result, Ok(("".to_string(), expected)));
}

#[test]
fn oldparser2_test_parse_left() {
    let input = "LEFT \"90";
    let expected = Statement::Left(Box::new(Expression::IntegerLiteral(90)));
    let result = parse_left(input);

    assert_eq!(result, Ok(("".to_string(), expected)));
}

#[test]
fn oldparser2_test_parse_right() {
    let input = "RIGHT \"90";
    let expected = Statement::Right(Box::new(Expression::IntegerLiteral(90)));
    let result = parse_right(input);

    assert_eq!(result, Ok(("".to_string(), expected)));
}

#[test]
fn oldparser2_test_parse_turn() {
    let input = "TURN \"90";
    let expected = Statement::Turn(Box::new(Expression::IntegerLiteral(90)));
    let result = parse_turn(input);

    assert_eq!(result, Ok(("".to_string(), expected)));
}

#[test]
fn oldparser2_test_parse_setx() {
    let input = "SETX \"10";
    let expected = Statement::SetX(Box::new(Expression::IntegerLiteral(10)));
    let result = parse_setx(input);

    assert_eq!(result, Ok(("".to_string(), expected)));
}

#[test]
fn oldparser2_test_parse_sety() {
    let input = "SETY \"10";
    let expected = Statement::SetY(Box::new(Expression::IntegerLiteral(10)));
    let result = parse_sety(input);

    assert_eq!(result, Ok(("".to_string(), expected)));
}

#[test]
fn oldparser2_test_parse_setheading() {
    let input = "SETHEADING \"90";
    let expected = Statement::SetHeading(Box::new(Expression::IntegerLiteral(90)));
    let result = parse_setheading(input);

    assert_eq!(result, Ok(("".to_string(), expected)));
}

#[test]
fn oldparser2_test_parse_setpencolor() {
    let input = "SETPENCOLOR \"10";
    let expected = Statement::SetPenColor(Box::new(Expression::IntegerLiteral(10)));
    let result = parse_setpencolor(input);

    assert_eq!(result, Ok(("".to_string(), expected)));
}

#[test]
fn oldparser2_test_parse_make() {
    let input = "MAKE \"foo \"10";
    let expected = Statement::Make(Identifier("foo".to_string(), "\"".to_string()), Box::new(Expression::IntegerLiteral(10)));
    let result = parse_make(input);

    assert_eq!(result, Ok(("".to_string(), expected)));
}

#[test]
fn oldparser2_test_parse_addassign() {
    let input = "ADDASSIGN \"foo \"10";
    let expected = Statement::AddAssign(Identifier("foo".to_string(), "\"".to_string()), Box::new(Expression::IntegerLiteral(10)));
    let result = parse_addassign(input);

    assert_eq!(result, Ok(("".to_string(), expected)));
}

#[test]
fn oldparser2_test_parse_if() {
    let input = "IF EQ \"10 \"20 [PENUP]";
    let expected = Statement::If(
        Box::new(Expression::Equals(
            Box::new(Expression::IntegerLiteral(10)),
            Box::new(Expression::IntegerLiteral(20)),
        )),
        Box::new(vec![Statement::PenUp]),
    );
    let result = parse_if(input);

    assert_eq!(result, Ok(("".to_string(), expected)));
}

#[test]
fn oldparser2_test_parse_while() {
    let input = "WHILE EQ \"10 \"20 [PENUP]";
    let expected = Statement::While(
        Box::new(Expression::Equals(
            Box::new(Expression::IntegerLiteral(10)),
            Box::new(Expression::IntegerLiteral(20)),
        )),
        Box::new(vec![Statement::PenUp]),
    );
    let result = parse_while(input);

    assert_eq!(result, Ok(("".to_string(), expected)));
}

#[test]
fn oldparser2_test_parse_repeat() {
    let input = "REPEAT \"10 [PENUP]";
    let expected = Statement::Repeat(
        Box::new(Expression::IntegerLiteral(10)),
        Box::new(vec![Statement::PenUp]),
    );
    let result = parse_repeat(input);

    assert_eq!(result, Ok(("".to_string(), expected)));
}

#[test]
fn oldparser2_test_parse_procedure_definition() {
    let input = "TO Foo :bar \"baz\nPENUP\nEND\n";
    let expected = Statement::ProcedureDefinition {
        name: Identifier("Foo".to_string(), "".to_string()),
        parameters: vec![
            Expression::VariableReference("bar".to_string()),
            Expression::StringLiteral("baz".to_string()),
        ],
        body: vec![Statement::PenUp],
    };
    let result = parse_procedure_definition(input);

    assert_eq!(result, Ok(("\n".to_string(), expected)));
}

#[test]
fn oldparser2_test_parse_procedure_call() {
    let input = "Bar \"10 \"20\n";
    let expected = Statement::ProcedureCall {
        name: Identifier("Bar".to_string(), "".to_string()),
        arguments: vec![
            Expression::IntegerLiteral(10),
            Expression::IntegerLiteral(20),
        ],
    };
    let result = parse_procedure_call(input);

    assert_eq!(result, Ok(("\n".to_string(), expected)));
}
