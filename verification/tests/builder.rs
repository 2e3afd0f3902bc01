use exprlang::expr::{Expr, Node, ParseError};
use exprlang::lexer::Op;

fn lit(v: i64) -> Node {
    Node::new(0, Expr::Int(v))
}

fn uint(v: u64) -> Node {
    Node::new(0, Expr::Uint(v))
}

fn float(text: &str) -> Node {
    Node::new(0, Expr::Float(text.to_string()))
}

fn string(text: &str) -> Node {
    Node::new(0, Expr::String(text.to_string()))
}

fn empty_struct(id: u64) -> Node {
    Node::new(id, Expr::Struct { pairs: Vec::new() })
}

#[test]
fn add_folds_two_ints() {
    assert_eq!(Expr::add(lit(2), lit(3)), Ok(Expr::Int(5)));
}

#[test]
fn add_of_int_and_float_is_left_for_later() {
    let built = Expr::add(lit(2), float("3.0")).unwrap();
    assert_eq!(built, Expr::BinaryOp { left: lit(2), op: Op::Add, right: float("3.0") });
}

#[test]
fn add_of_two_floats_is_left_for_later() {
    let built = Expr::add(float("1.5"), float("2.5")).unwrap();
    assert_eq!(built, Expr::BinaryOp { left: float("1.5"), op: Op::Add, right: float("2.5") });
}

#[test]
fn add_joins_two_strings() {
    assert_eq!(Expr::add(string("ab"), string("cd")), Ok(Expr::String("abcd".to_string())));
}

#[test]
fn sub_of_strings_is_left_for_later() {
    let built = Expr::sub(string("ab"), string("cd")).unwrap();
    assert!(matches!(built, Expr::BinaryOp { op: Op::Sub, .. }));
}

#[test]
fn arithmetic_on_ints() {
    assert_eq!(Expr::sub(lit(2), lit(3)), Ok(Expr::Int(-1)));
    assert_eq!(Expr::mult(lit(-4), lit(3)), Ok(Expr::Int(-12)));
    assert_eq!(Expr::div(lit(-7), lit(2)), Ok(Expr::Int(-3)));
    assert_eq!(Expr::modd(lit(-7), lit(2)), Ok(Expr::Int(-1)));
    assert_eq!(Expr::modd(lit(7), lit(-2)), Ok(Expr::Int(1)));
}

#[test]
fn arithmetic_on_uints() {
    assert_eq!(Expr::add(uint(2), uint(3)), Ok(Expr::Uint(5)));
    assert_eq!(Expr::sub(uint(5), uint(3)), Ok(Expr::Uint(2)));
    assert_eq!(Expr::mult(uint(4), uint(3)), Ok(Expr::Uint(12)));
    assert_eq!(Expr::div(uint(7), uint(2)), Ok(Expr::Uint(3)));
    assert_eq!(Expr::modd(uint(7), uint(2)), Ok(Expr::Uint(1)));
}

#[test]
fn division_by_zero_is_left_for_later() {
    assert_eq!(
        Expr::div(lit(1), lit(0)),
        Ok(Expr::BinaryOp { left: lit(1), op: Op::Div, right: lit(0) })
    );
    assert_eq!(
        Expr::modd(uint(1), uint(0)),
        Ok(Expr::BinaryOp { left: uint(1), op: Op::Mod, right: uint(0) })
    );
}

#[test]
fn overflow_is_left_for_later() {
    assert_eq!(
        Expr::add(lit(i64::MAX), lit(1)),
        Ok(Expr::BinaryOp { left: lit(i64::MAX), op: Op::Add, right: lit(1) })
    );
    assert_eq!(
        Expr::sub(uint(0), uint(1)),
        Ok(Expr::BinaryOp { left: uint(0), op: Op::Sub, right: uint(1) })
    );
    assert_eq!(
        Expr::div(lit(i64::MIN), lit(-1)),
        Ok(Expr::BinaryOp { left: lit(i64::MIN), op: Op::Div, right: lit(-1) })
    );
    assert_eq!(
        Expr::mult(uint(u64::MAX), uint(2)),
        Ok(Expr::BinaryOp { left: uint(u64::MAX), op: Op::Mul, right: uint(2) })
    );
}

#[test]
fn eq_folds_two_equal_strings() {
    assert_eq!(Expr::eq(string("a"), string("a")), Ok(Expr::Bool(true)));
    assert_eq!(Expr::eq(string("a"), string("b")), Ok(Expr::Bool(false)));
    assert_eq!(Expr::neq(string("a"), string("b")), Ok(Expr::Bool(true)));
}

#[test]
fn eq_of_two_struct_instances_is_by_identity() {
    assert_eq!(Expr::eq(empty_struct(1), empty_struct(2)), Ok(Expr::Bool(false)));
    assert_eq!(Expr::neq(empty_struct(1), empty_struct(2)), Ok(Expr::Bool(true)));
    let one = empty_struct(7);
    assert_eq!(Expr::eq(one.share(), one.share()), Ok(Expr::Bool(true)));
    assert_eq!(Expr::neq(one.share(), one), Ok(Expr::Bool(false)));
}

#[test]
fn eq_folds_values_of_one_kind() {
    assert_eq!(Expr::eq(lit(2), lit(2)), Ok(Expr::Bool(true)));
    assert_eq!(Expr::neq(lit(2), lit(2)), Ok(Expr::Bool(false)));
    assert_eq!(Expr::eq(uint(2), uint(3)), Ok(Expr::Bool(false)));
    assert_eq!(
        Expr::eq(Node::new(0, Expr::Bool(true)), Node::new(0, Expr::Bool(true))),
        Ok(Expr::Bool(true))
    );
    assert_eq!(
        Expr::eq(Node::new(0, Expr::Char('a')), Node::new(0, Expr::Char('b'))),
        Ok(Expr::Bool(false))
    );
    assert_eq!(Expr::eq(Node::absent(), Node::absent()), Ok(Expr::Bool(true)));
}

#[test]
fn eq_with_a_number_on_the_left_is_left_for_later() {
    assert_eq!(
        Expr::eq(lit(2), float("2.0")),
        Ok(Expr::BinaryOp { left: lit(2), op: Op::Eq, right: float("2.0") })
    );
    assert_eq!(
        Expr::neq(lit(2), empty_struct(1)),
        Ok(Expr::BinaryOp { left: lit(2), op: Op::Neq, right: empty_struct(1) })
    );
    assert_eq!(
        Expr::eq(float("2.0"), float("2.0")),
        Ok(Expr::BinaryOp { left: float("2.0"), op: Op::Eq, right: float("2.0") })
    );
}

#[test]
fn eq_of_a_string_and_a_number_is_by_identity() {
    assert_eq!(Expr::eq(string("2"), lit(2)), Ok(Expr::Bool(false)));
}

#[test]
fn neg_folds_numbers() {
    assert_eq!(Expr::neg(lit(5)), Ok(Expr::Int(-5)));
    assert_eq!(Expr::neg(float("2.5")), Ok(Expr::Float("-2.5".to_string())));
    assert_eq!(Expr::neg(float("-2.5")), Ok(Expr::Float("2.5".to_string())));
    assert_eq!(
        Expr::neg(lit(i64::MIN)),
        Ok(Expr::UnaryOp { op: Op::Sub, expr: lit(i64::MIN) })
    );
}

#[test]
fn negated_float_text_reads_as_the_negated_float() {
    match Expr::neg(float("123.234")) {
        Ok(Expr::Float(text)) => assert_eq!(text.parse::<f64>().unwrap(), -123.234),
        other => panic!("{:?}", other),
    }
}

#[test]
fn neg_refuses_what_is_not_a_number() {
    assert_eq!(Expr::neg(uint(5)), Err(ParseError::ExpectedNumericOperand));
    assert_eq!(Expr::neg(string("a")), Err(ParseError::ExpectedNumericOperand));
    assert_eq!(Expr::neg(empty_struct(1)), Err(ParseError::ExpectedNumericOperand));
}

#[test]
fn not_is_never_folded() {
    assert_eq!(
        Expr::not(Node::new(0, Expr::Bool(true))),
        Expr::UnaryOp { op: Op::Not, expr: Node::new(0, Expr::Bool(true)) }
    );
}

#[test]
fn conditional_on_true_without_else_is_the_then_branch_as_a_present_optional() {
    let built = Expr::conditional(Node::new(0, Expr::Bool(true)), lit(1), None, 10, 11);
    assert_eq!(built, Node::new(10, Expr::Option(Some(lit(1)))));
}

#[test]
fn conditional_on_false_without_else_is_absent() {
    let built = Expr::conditional(Node::new(0, Expr::Bool(false)), lit(1), None, 10, 11);
    assert_eq!(built, Node::absent());
}

#[test]
fn conditional_on_a_literal_with_else_selects_the_branch() {
    let built = Expr::conditional(Node::new(0, Expr::Bool(true)), lit(1), Some(lit(2)), 10, 11);
    assert_eq!(built, lit(1));
    let built = Expr::conditional(Node::new(0, Expr::Bool(false)), lit(1), Some(lit(2)), 10, 11);
    assert_eq!(built, lit(2));
}

#[test]
fn conditional_on_an_unknown_condition_is_an_if_node() {
    let test = Node::new(3, Expr::Identifier("c".to_string()));
    let built = Expr::conditional(test.share(), lit(1), None, 10, 11);
    assert_eq!(
        built,
        Node::new(
            11,
            Expr::If {
                condition: test.share(),
                then_branch: Node::new(10, Expr::Option(Some(lit(1)))),
                else_branch: Node::absent(),
            }
        )
    );
    let built = Expr::conditional(test.share(), lit(1), Some(lit(2)), 10, 11);
    assert_eq!(
        built,
        Node::new(11, Expr::If { condition: test, then_branch: lit(1), else_branch: lit(2) })
    );
}

#[test]
fn is_bad_primative_refuses_a_primitive_on_the_right() {
    assert_eq!(
        Expr::is_bad_primative(lit(1), Op::Add, float("2.0")),
        Err(ParseError::BadExpress(
            "Expect int while reducing expression, found float".to_string()
        ))
    );
    assert_eq!(
        Expr::is_bad_primative(lit(1), Op::Add, empty_struct(1)),
        Ok(Expr::BinaryOp { left: lit(1), op: Op::Add, right: empty_struct(1) })
    );
}

#[test]
fn primitive_kinds_have_names() {
    assert_eq!(Expr::Bool(true).primative_str(), "bool");
    assert_eq!(Expr::Uint(1).primative_str(), "uint");
    assert_eq!(Expr::Int(1).primative_str(), "int");
    assert_eq!(Expr::Float("1.0".to_string()).primative_str(), "float");
    assert_eq!(Expr::Char('a').primative_str(), "char");
    assert_eq!(Expr::String("a".to_string()).primative_str(), "string");
    assert_eq!(Expr::Param.primative_str(), "Complex Expr");
    assert!(Expr::Char('a').is_primative());
    assert!(!Expr::Param.is_primative());
    assert!(!Expr::Option(None).is_primative());
}
