use logo_turtle::ast::{check_type, Expression, Statement};
use logo_turtle::output::ImageFormat;
use logo_turtle::turtle::{Turtle, TurtleError, COORD_LIMIT};

#[test]
fn new_turtle_stands_in_the_middle() {
    let t = Turtle::new(200, 101);
    assert_eq!((t.xcor(), t.ycor(), t.heading(), t.color()), (100, 50, 0, 7));
    assert!(!t.pen_down());
}

#[test]
fn forward_moves_along_the_heading() {
    let mut t = Turtle::new(100, 100);
    assert_eq!(t.forward(10), Ok(()));
    assert_eq!((t.xcor(), t.ycor()), (50, 40));
    t.right(90);
    assert_eq!(t.forward(5), Ok(()));
    assert_eq!((t.xcor(), t.ycor()), (55, 40));
    assert_eq!(t.back(5), Ok(()));
    assert_eq!((t.xcor(), t.ycor()), (50, 40));
}

#[test]
fn forward_with_pen_down_draws_to_the_same_end() {
    let mut t = Turtle::new(100, 100);
    t.pendown();
    assert_eq!(t.forward(20), Ok(()));
    assert_eq!((t.xcor(), t.ycor()), (50, 30));
    t.set_heading(180);
    assert_eq!(t.forward(0), Ok(()));
    assert_eq!((t.xcor(), t.ycor()), (50, 30));
}

#[test]
fn headings_wrap_around() {
    let mut t = Turtle::new(10, 10);
    t.left(90);
    assert_eq!(t.heading(), 270);
    t.right(450);
    assert_eq!(t.heading(), 0);
    t.set_heading(-30);
    assert_eq!(t.heading(), 330);
    t.right(i32::MAX);
    assert_eq!(t.heading(), ((330i64 + i32::MAX as i64) % 360) as i32);
}

#[test]
fn set_x_and_set_y_jump() {
    let mut t = Turtle::new(100, 100);
    t.pendown();
    assert_eq!(t.set_x(10), Ok(()));
    assert_eq!(t.set_y(90), Ok(()));
    assert_eq!((t.xcor(), t.ycor()), (10, 90));
}

#[test]
fn far_positions_are_out_of_range() {
    let mut t = Turtle::new(100, 100);
    assert_eq!(t.set_x(COORD_LIMIT + 1), Ok(()));
    assert_eq!(t.forward(1), Err(TurtleError::OutOfRange));
    assert_eq!(t.xcor(), COORD_LIMIT + 1);
    t.pendown();
    assert_eq!(t.set_y(0), Err(TurtleError::OutOfRange));
    let mut u = Turtle::new(100, 100);
    assert_eq!(u.forward(i32::MIN), Err(TurtleError::OutOfRange));
}

#[test]
fn pen_colour_range() {
    let mut t = Turtle::new(10, 10);
    assert_eq!(t.set_pen_color(15), Ok(()));
    assert_eq!(t.set_pen_color(-1), Err(TurtleError::InvalidColor(-1)));
    assert_eq!(t.color(), 15);
    t.penup();
    assert!(!t.pen_down());
}

#[test]
fn image_format_from_extension() {
    assert_eq!(ImageFormat::from_extension("svg"), Some(ImageFormat::Svg));
    assert_eq!(ImageFormat::from_extension("png"), Some(ImageFormat::Png));
    assert_eq!(ImageFormat::from_extension("SVG"), None);
    assert_eq!(ImageFormat::from_extension("jpg"), None);
}

#[test]
fn check_type_names_the_type_alone() {
    let a = check_type(&Expression::IntegerLiteral(1));
    let b = check_type(&Expression::StringLiteral("a".to_string()));
    assert_eq!(a, b);
    assert_eq!(a, "logo_turtle::ast::Expression");
    assert_eq!(check_type(&Statement::PenUp), "logo_turtle::ast::Statement");
}
