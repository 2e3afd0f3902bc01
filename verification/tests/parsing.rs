use exprlang::expr::{Expr, Node, ParseError};
use exprlang::lexer::{Lexer, Op, Token};
use exprlang::parser::Parser;
use exprlang::type_def::Type;

fn parse(source: &str) -> Result<Node, ParseError> {
    Parser::new(Lexer::new(source)).parse()
}

fn statements(source: &str) -> Vec<Node> {
    let program = parse(source).unwrap();
    assert_eq!(program.id, u64::MAX);
    match std::sync::Arc::try_unwrap(program.expr) {
        Ok(Expr::Block(items)) => items,
        other => panic!("{:?}", other),
    }
}

fn lit(v: i64) -> Node {
    Node::new(0, Expr::Int(v))
}

#[test]
fn a_binding_is_visible_to_later_statements() {
    let items = statements("5.as(x); x + 1;");
    assert_eq!(items.len(), 2);
    assert_eq!(items[0], lit(5));
    assert_eq!(items[1], lit(6));
}

#[test]
fn a_binding_is_visible_from_tokens_too() {
    let tokens = vec![
        Token::Int(5),
        Token::Period,
        Token::Ident("as".to_string()),
        Token::LParen,
        Token::Ident("x".to_string()),
        Token::RParen,
        Token::SemiCol,
        Token::Ident("x".to_string()),
        Token::Op(Op::Add),
        Token::Int(1),
        Token::SemiCol,
    ];
    let program = Parser::from_tokens(tokens).parse().unwrap();
    assert_eq!(*program.expr, Expr::Block(vec![lit(5), lit(6)]));
}

#[test]
fn if_true_without_else_collapses_to_a_present_optional() {
    let items = statements("if true { 7 }");
    assert_eq!(items.len(), 1);
    match &*items[0].expr {
        Expr::Option(Some(then_branch)) => {
            assert_eq!(*then_branch.expr, Expr::Block(vec![lit(7)]));
        }
        other => panic!("{:?}", other),
    }
}

#[test]
fn if_false_without_else_collapses_to_the_absent_optional() {
    let items = statements("if false { 7 }");
    assert_eq!(items, vec![Node::absent()]);
}

#[test]
fn if_with_else_on_a_literal_selects_the_branch() {
    let items = statements("if 1 == 1 { 7 } else { 8 }; if 1 == 2 { 7 } else { 8 }");
    assert_eq!(*items[0].expr, Expr::Block(vec![lit(7)]));
    assert_eq!(*items[1].expr, Expr::Block(vec![lit(8)]));
}

#[test]
fn if_on_an_unknown_condition_stays_an_if_node() {
    let items = statements("if c { 7 }");
    match &*items[0].expr {
        Expr::If { condition, then_branch, else_branch } => {
            assert_eq!(*condition.expr, Expr::Identifier("c".to_string()));
            assert!(matches!(&*then_branch.expr, Expr::Option(Some(_))));
            assert_eq!(*else_branch, Node::absent());
        }
        other => panic!("{:?}", other),
    }
}

#[test]
fn an_unbound_name_stays_an_identifier() {
    let items = statements("y;");
    assert_eq!(items.len(), 1);
    assert_eq!(*items[0].expr, Expr::Identifier("y".to_string()));
}

#[test]
fn an_unbound_name_in_an_operation_is_left_for_later() {
    let items = statements("y + 1");
    match &*items[0].expr {
        Expr::BinaryOp { left, op, right } => {
            assert_eq!(*left.expr, Expr::Identifier("y".to_string()));
            assert_eq!(*op, Op::Add);
            assert_eq!(*right, lit(1));
        }
        other => panic!("{:?}", other),
    }
}

#[test]
fn operators_have_no_precedence_and_group_to_the_right() {
    assert_eq!(statements("2 * 2 + 4"), vec![lit(12)]);
    assert_eq!(statements("2 + 2 * 4"), vec![lit(10)]);
    assert_eq!(statements("10 - 2 - 3"), vec![lit(11)]);
    assert_eq!(statements("(10 - 2) - 3"), vec![lit(5)]);
}

#[test]
fn a_minus_sign_applies_to_all_that_follows() {
    assert_eq!(statements("-2 + 3"), vec![lit(-5)]);
    assert_eq!(statements("(-2) + 3"), vec![lit(1)]);
}

#[test]
fn a_minus_sign_before_what_is_not_a_number_is_an_error() {
    assert_eq!(parse("-y"), Err(ParseError::ExpectedNumericOperand));
    assert_eq!(parse("-2u"), Err(ParseError::ExpectedNumericOperand));
}

#[test]
fn not_builds_a_node() {
    let items = statements("!true");
    assert_eq!(
        *items[0].expr,
        Expr::UnaryOp { op: Op::Not, expr: Node::new(0, Expr::Bool(true)) }
    );
}

#[test]
fn literals_are_read() {
    let items = statements("1; 2u; 'c'; \"text\"; 1.5; true; none");
    assert_eq!(*items[0].expr, Expr::Int(1));
    assert_eq!(*items[1].expr, Expr::Uint(2));
    assert_eq!(*items[2].expr, Expr::Char('c'));
    assert_eq!(*items[3].expr, Expr::String("text".to_string()));
    assert_eq!(*items[4].expr, Expr::Float("1.5".to_string()));
    assert_eq!(*items[5].expr, Expr::Bool(true));
    assert_eq!(*items[6].expr, Expr::Option(None));
}

#[test]
fn comparing_a_bound_structure_with_itself_is_true() {
    let items = statements("{ a: 1 }.as(s); s == s; { a: 1 } == { a: 1 }");
    assert_eq!(*items[1].expr, Expr::Bool(true));
    assert_eq!(*items[2].expr, Expr::Bool(false));
}

#[test]
fn a_structure_literal_keeps_its_fields_in_order() {
    let items = statements("{ a: 1, b: 2 + 3, a: 4 }");
    match &*items[0].expr {
        Expr::Struct { pairs } => {
            assert_eq!(pairs.len(), 2);
            assert_eq!(pairs[0], ("a".to_string(), lit(4)));
            assert_eq!(pairs[1], ("b".to_string(), lit(5)));
        }
        other => panic!("{:?}", other),
    }
}

#[test]
fn pass_to_replaces_the_subject() {
    assert_eq!(statements("5.as(x); 1.pass_to(x)")[1], lit(5));
    assert_eq!(statements("1.pass_to(2 + 3)"), vec![lit(5)]);
    let items = statements("1.pass_to(z)");
    assert_eq!(*items[0].expr, Expr::Identifier("z".to_string()));
}

#[test]
fn rebinding_a_name_takes_the_later_value() {
    assert_eq!(statements("1.as(x); 2.as(x); x")[2], lit(2));
}

#[test]
fn a_binding_inside_a_block_stays_after_the_block() {
    let items = statements("if true { 5.as(x) } else { 0 }; x");
    assert_eq!(items[1], lit(5));
}

#[test]
fn an_unknown_method_is_an_error() {
    assert_eq!(
        parse("5.frob(x)"),
        Err(ParseError::UnexpectedToken(
            Token::Ident("frob".to_string()),
            "expected the method `as` or `pass_to`".to_string()
        ))
    );
}

#[test]
fn a_declaration_gives_a_named_type() {
    let items = statements("T: int;");
    match &*items[0].expr {
        Expr::Type(Type::TypeDef { name, type_def }) => {
            assert_eq!(name, "T");
            assert_eq!(type_def.get_sig(), 1000000004);
        }
        other => panic!("{:?}", other),
    }
}

#[test]
fn declaring_a_name_twice_is_an_error() {
    assert_eq!(parse("T: int; T: int;"), Err(ParseError::DuplicateTypeName("T".to_string())));
    assert_eq!(parse("T: int; T: float;"), Err(ParseError::DuplicateTypeName("T".to_string())));
}

#[test]
fn two_names_of_one_structure_share_one_type() {
    let mut parser = Parser::new(Lexer::new("A: { x: int, y: float }; B: { p: float, q: int };"));
    parser.parse().unwrap();
    let a = parser.types().resolve_type(&"A".to_string()).unwrap();
    let b = parser.types().resolve_type(&"B".to_string()).unwrap();
    assert!(std::sync::Arc::ptr_eq(&a, &b));
    assert_eq!(a.get_sig(), b.get_sig());
}

#[test]
fn an_unknown_type_name_is_an_error() {
    assert_eq!(parse("T: [U];"), Err(ParseError::UnknownType("U".to_string())));
}

#[test]
fn a_declaration_sees_its_own_name_as_generic() {
    let items = statements("List: { head: int, tail: [List] };");
    match &*items[0].expr {
        Expr::Type(Type::TypeDef { type_def, .. }) => match &**type_def {
            Type::Struct { pairs } => match &*pairs[1] {
                Type::TypeDef { name, type_def } => {
                    assert_eq!(name, "tail");
                    assert_eq!(type_def.get_sig(), 31 * 1000000009 + 1000000001);
                }
                other => panic!("{:?}", other),
            },
            other => panic!("{:?}", other),
        },
        other => panic!("{:?}", other),
    }
}

#[test]
fn a_structure_type_refuses_a_field_name_twice() {
    assert_eq!(
        parse("T: { a: int, a: float };"),
        Err(ParseError::UnexpectedToken(
            Token::Ident("a".to_string()),
            "expected a field name that is not in use".to_string()
        ))
    );
}

#[test]
fn a_function_literal_carries_its_signatures() {
    let items = statements("|int -> [float]| { $ + 1 }");
    match &*items[0].expr {
        Expr::Function { param_sig, return_sig, block } => {
            assert_eq!(*param_sig, 1000000004);
            assert_eq!(*return_sig, 31 * 1000000009 + 1000000007);
            match &*block.expr {
                Expr::Block(body) => match &*body[0].expr {
                    Expr::BinaryOp { left, op, right } => {
                        assert_eq!(*left.expr, Expr::Param);
                        assert_eq!(*op, Op::Add);
                        assert_eq!(*right, lit(1));
                    }
                    other => panic!("{:?}", other),
                },
                other => panic!("{:?}", other),
            }
        }
        other => panic!("{:?}", other),
    }
}

#[test]
fn a_function_literal_takes_declared_types() {
    let items = statements("P: { x: int }; |P -> P| { $ }");
    match &*items[1].expr {
        Expr::Function { param_sig, return_sig, .. } => {
            assert_eq!(*param_sig, 31 * 1000000010 + 1000000004);
            assert_eq!(param_sig, return_sig);
        }
        other => panic!("{:?}", other),
    }
}

#[test]
fn a_program_must_end_with_the_input() {
    assert_eq!(
        parse("1 }"),
        Err(ParseError::UnexpectedToken(
            Token::RBrack,
            "expected the end of the input".to_string()
        ))
    );
}

#[test]
fn statements_need_a_terminator_between_them() {
    assert_eq!(
        parse("1 2"),
        Err(ParseError::UnexpectedToken(
            Token::Int(2),
            "expected `;` or the end of the block".to_string()
        ))
    );
}

#[test]
fn a_block_must_be_closed() {
    assert_eq!(
        parse("if c { 1"),
        Err(ParseError::UnexpectedToken(Token::EOF, "expected `}`".to_string()))
    );
}

#[test]
fn an_invalid_character_is_an_unexpected_token() {
    assert_eq!(
        parse("#"),
        Err(ParseError::UnexpectedToken(Token::Invalid('#'), "expected an expression".to_string()))
    );
}

#[test]
fn the_empty_program_is_an_empty_block() {
    assert_eq!(statements(""), Vec::<Node>::new());
    assert_eq!(statements("// nothing here"), Vec::<Node>::new());
}

#[test]
fn nodes_that_are_made_have_identities_of_their_own() {
    let items = statements("a; b; a + b");
    assert_eq!(items[0].id, 0);
    assert_eq!(items[1].id, 1);
    match &*items[2].expr {
        Expr::BinaryOp { left, right, .. } => {
            assert_eq!(left.id, 2);
            assert_eq!(right.id, 3);
        }
        other => panic!("{:?}", other),
    }
    assert_eq!(items[2].id, 4);
}

#[test]
fn statements_can_be_read_one_by_one() {
    let mut parser = Parser::new(Lexer::new("1 + 1; 2 3;"));
    assert_eq!(*parser.current_token(), Token::Int(1));
    assert_eq!(parser.parse_top_level_expr(), Ok(lit(2)));
    assert_eq!(*parser.current_token(), Token::Int(2));
    assert_eq!(
        parser.parse_top_level_expr(),
        Err(ParseError::UnexpectedToken(Token::Int(3), "expected `;`".to_string()))
    );
    assert_eq!(*parser.next_token(), Token::SemiCol);
    assert_eq!(*parser.next_token(), Token::EOF);
    assert_eq!(*parser.next_token(), Token::EOF);
}

#[test]
fn a_block_in_braces_can_be_read_alone() {
    let mut parser = Parser::new(Lexer::new("{ 1; 2 }"));
    let block = parser.parse_block(false).unwrap();
    assert_eq!(*block.expr, Expr::Block(vec![lit(1), lit(2)]));
    assert_eq!(block.id, 0);
}

#[test]
fn a_type_can_be_read_alone() {
    let mut parser = Parser::new(Lexer::new("[{ a: int; b: [char] }] T"));
    let t = parser.parse_type(None).unwrap();
    assert_eq!(
        t.get_sig(),
        31 * 1000000009 + ((31 * 1000000010 + 1000000004) * 31 + (31 * 1000000009 + 1000000006))
    );
    assert_eq!(
        parser.parse_type(None).map(|t| t.get_sig()),
        Err(ParseError::UnknownType("T".to_string()))
    );
    assert_eq!(parser.parse_type(Some(&"T".to_string())).map(|t| t.get_sig()), Ok(1000000001));
}

#[test]
fn a_generic_function_can_be_specialized() {
    let items = statements("|generic -> int| { $ }; 5");
    match items[0].expr.specialize(77) {
        Ok(Expr::Function { param_sig, return_sig, .. }) => {
            assert_eq!(param_sig, 77);
            assert_eq!(return_sig, 1000000004);
        }
        other => panic!("{:?}", other),
    }
    assert_eq!(
        items[1].expr.specialize(77),
        Err(ParseError::BadExpress("only a function can be specialized".to_string()))
    );
}

#[test]
fn errors_in_a_method_application() {
    assert_eq!(
        parse("5 . 3"),
        Err(ParseError::UnexpectedToken(Token::Int(3), "expected a method name".to_string()))
    );
    assert_eq!(
        parse("5.as x"),
        Err(ParseError::UnexpectedToken(Token::Ident("x".to_string()), "expected `(`".to_string()))
    );
    assert_eq!(
        parse("5.as(1)"),
        Err(ParseError::UnexpectedToken(Token::Int(1), "expected a name".to_string()))
    );
    assert_eq!(
        parse("5.as(x"),
        Err(ParseError::UnexpectedToken(Token::EOF, "expected `)`".to_string()))
    );
    assert_eq!(
        parse("5.pass_to(x;"),
        Err(ParseError::UnexpectedToken(Token::SemiCol, "expected `)`".to_string()))
    );
}

#[test]
fn errors_in_literals_and_types() {
    assert_eq!(
        parse("{ a 1 }"),
        Err(ParseError::UnexpectedToken(Token::Int(1), "expected `:`".to_string()))
    );
    assert_eq!(
        parse("{ a: 1 b: 2 }"),
        Err(ParseError::UnexpectedToken(
            Token::Ident("b".to_string()),
            "expected `,` or `}`".to_string()
        ))
    );
    assert_eq!(
        parse("{ 1 }"),
        Err(ParseError::UnexpectedToken(Token::Int(1), "expected a field name or `}`".to_string()))
    );
    assert_eq!(
        parse("(1"),
        Err(ParseError::UnexpectedToken(Token::EOF, "expected `)`".to_string()))
    );
    assert_eq!(
        parse("|int int| { }"),
        Err(ParseError::UnexpectedToken(Token::TInt, "expected `->`".to_string()))
    );
    assert_eq!(
        parse("|int -> int { }"),
        Err(ParseError::UnexpectedToken(Token::LBrack, "expected `|`".to_string()))
    );
    assert_eq!(
        parse("|int -> int| 1"),
        Err(ParseError::UnexpectedToken(Token::Int(1), "expected `{`".to_string()))
    );
    assert_eq!(
        parse("T: [int"),
        Err(ParseError::UnexpectedToken(Token::EOF, "expected `]`".to_string()))
    );
    assert_eq!(
        parse("T: 5"),
        Err(ParseError::UnexpectedToken(Token::Int(5), "expected a type".to_string()))
    );
    assert_eq!(
        parse("T: { a int }"),
        Err(ParseError::UnexpectedToken(Token::TInt, "expected `:`".to_string()))
    );
    assert_eq!(
        parse("T: { a: int b: int }"),
        Err(ParseError::UnexpectedToken(
            Token::Ident("b".to_string()),
            "expected `,`, `;` or `}`".to_string()
        ))
    );
    assert_eq!(
        parse("T: { 1 }"),
        Err(ParseError::UnexpectedToken(Token::Int(1), "expected a field name or `}`".to_string()))
    );
    assert_eq!(
        parse("* 2"),
        Err(ParseError::UnexpectedToken(Token::Op(Op::Mul), "expected an expression".to_string()))
    );
}
