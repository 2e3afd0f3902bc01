use exprlang::expr::{Expr, Node, ParseError};
use exprlang::lexer::{Lexer, Op};
use exprlang::llvm_ir::{emit, parsing_loop, run, PRELUDE};
use exprlang::parser::Parser;
use exprlang::text::{chars_of, joined, text_between};
use exprlang::type_check::TypeEnv;
use exprlang::type_def::Type;
use std::sync::Arc;

fn lit(v: i64) -> Node {
    Node::new(0, Expr::Int(v))
}

fn name(id: u64, text: &str) -> Node {
    Node::new(id, Expr::Identifier(text.to_string()))
}

#[test]
fn an_int_is_lowered_to_a_temporary() {
    let mut counter = 3;
    let lowered = Expr::Int(-42).to_llvm_ir(&mut counter).unwrap();
    assert_eq!(lowered.value, "%tmp3");
    assert_eq!(lowered.code, "%tmp3 = add i64 -42, 0");
    assert_eq!(counter, 4);
}

#[test]
fn the_least_int_is_lowered_too() {
    let mut counter = 0;
    let lowered = Expr::Int(i64::MIN).to_llvm_ir(&mut counter).unwrap();
    assert_eq!(lowered.code, "%tmp0 = add i64 -9223372036854775808, 0");
}

#[test]
fn an_identifier_is_a_value_by_its_name() {
    let mut counter = 0;
    let lowered = Expr::Identifier("x".to_string()).to_llvm_ir(&mut counter).unwrap();
    assert_eq!(lowered.value, "%x");
    assert_eq!(lowered.code, "");
    assert_eq!(counter, 0);
}

#[test]
fn an_operation_lowers_its_operands_first() {
    let e = Expr::BinaryOp { left: name(1, "x"), op: Op::Div, right: lit(2) };
    let mut counter = 0;
    let lowered = e.to_llvm_ir(&mut counter).unwrap();
    assert_eq!(lowered.value, "%tmp1");
    assert_eq!(lowered.code, "\n%tmp0 = add i64 2, 0\n%tmp1 = sdiv i64 %x, %tmp0");
    assert_eq!(counter, 2);
}

#[test]
fn what_has_no_lowering_is_refused() {
    let mut counter = 0;
    assert_eq!(
        Expr::Bool(true).to_llvm_ir(&mut counter).map(|l| l.code),
        Err(ParseError::BadExpress("the expression cannot be lowered".to_string()))
    );
    let e = Expr::BinaryOp { left: name(1, "x"), op: Op::Mod, right: lit(2) };
    assert_eq!(
        e.to_llvm_ir(&mut counter).map(|l| l.code),
        Err(ParseError::BadExpress("the expression cannot be lowered".to_string()))
    );
    let mut full = u64::MAX;
    assert_eq!(
        Expr::Int(1).to_llvm_ir(&mut full).map(|l| l.code),
        Err(ParseError::BadExpress("the expression needs too many temporaries".to_string()))
    );
}

#[test]
fn a_statement_becomes_a_function() {
    assert_eq!(
        Expr::Int(10).to_anon_fn(12).unwrap(),
        "define i64 @anon_fn_12() {\n    %tmp0 = add i64 10, 0\n    ret i64 %tmp0\n}"
    );
    assert_eq!(Expr::Int(1).to_anon_call(0), "%anon_call_0 = call i64 @anon_fn_0()\n");
    assert_eq!(Expr::Int(1).anon_debug(105), "call void @print_int(i64 %anon_call_105)\n");
}

#[test]
fn run_gives_the_text_of_the_program() {
    let text = run(Lexer::new("2+2*4;3+3;")).unwrap();
    let expected = format!(
        "{}{}{}{}",
        PRELUDE,
        "define i64 @anon_fn_0() {\n    %tmp0 = add i64 10, 0\n    ret i64 %tmp0\n}",
        "define i64 @anon_fn_1() {\n    %tmp0 = add i64 6, 0\n    ret i64 %tmp0\n}",
        "define i32 @main() {\n%anon_call_0 = call i64 @anon_fn_0()\ncall void @print_int(i64 %anon_call_0)\n%anon_call_1 = call i64 @anon_fn_1()\ncall void @print_int(i64 %anon_call_1)\nret i32 0\n}"
    );
    assert_eq!(text, expected);
}

#[test]
fn run_keeps_operations_on_names() {
    let text = run(Lexer::new("a * 3")).unwrap();
    assert!(text.contains(
        "define i64 @anon_fn_0() {\n    \n%tmp0 = add i64 3, 0\n%tmp1 = mul i64 %a, %tmp0\n    ret i64 %tmp1\n}"
    ));
}

#[test]
fn run_gives_the_error_of_the_parser() {
    assert_eq!(
        run(Lexer::new("1 +")),
        Err(ParseError::UnexpectedToken(
            exprlang::lexer::Token::EOF,
            "expected an expression".to_string()
        ))
    );
    assert_eq!(
        run(Lexer::new("true")),
        Err(ParseError::BadExpress("the expression cannot be lowered".to_string()))
    );
}

#[test]
fn the_empty_program_has_an_empty_main() {
    assert_eq!(emit(&Vec::new()).unwrap(), format!("{}define i32 @main() {{\nret i32 0\n}}", PRELUDE));
}

#[test]
fn parsing_loop_gives_the_statements() {
    let items = parsing_loop(Parser::new(Lexer::new("1; 2 + 3"))).unwrap();
    assert_eq!(items, vec![lit(1), lit(5)]);
}

#[test]
fn text_helpers() {
    assert_eq!(chars_of("ab\u{e9}"), vec!['a', 'b', '\u{e9}']);
    assert_eq!(text_between(&vec!['a', 'b', 'c', 'd'], 1, 3), "bc");
    assert_eq!(joined(&"ab".to_string(), &"cd".to_string()), "abcd");
}

fn check(source: &str, env: &TypeEnv) -> Result<u64, String> {
    let items = parsing_loop(Parser::new(Lexer::new(source))).unwrap();
    items[items.len() - 1].expr.type_check(env).map(|t| t.get_sig())
}

#[test]
fn literals_have_their_types() {
    let env = TypeEnv::new();
    assert_eq!(check("1", &env), Ok(1000000004));
    assert_eq!(check("1u", &env), Ok(1000000005));
    assert_eq!(check("true", &env), Ok(1000000003));
    assert_eq!(check("'c'", &env), Ok(1000000006));
    assert_eq!(check("1.5", &env), Ok(1000000007));
    assert_eq!(check("\"s\"", &env), Ok(1000000008));
    assert_eq!(check("none", &env), Err("Option must contain an expression.".to_string()));
    assert_eq!(check("$", &env), Err("Params should not be type-checked directly.".to_string()));
    assert_eq!(check("int", &env), Ok(1000000004));
}

#[test]
fn identifiers_have_the_types_of_the_environment() {
    let mut env = TypeEnv::new();
    assert_eq!(check("x", &env), Err("Undefined identifier: x".to_string()));
    env.insert("x".to_string(), Type::Int);
    assert_eq!(check("x", &env), Ok(1000000004));
    assert_eq!(check("x + x", &env), Ok(1000000004));
    assert_eq!(check("x + 1u", &env), Err("Type mismatch in binary operation.".to_string()));
    assert_eq!(check("!x", &env), Err("Type mismatch in unary operation.".to_string()));
    assert_eq!(check("y + x", &env), Err("Undefined identifier: y".to_string()));
    env.insert("x".to_string(), Type::Bool);
    assert_eq!(check("x", &env), Ok(1000000003));
    assert_eq!(env.get(&"x".to_string()).map(|t| t.get_sig()), Some(1000000003));
    assert!(env.get(&"z".to_string()).is_none());
}

#[test]
fn conditionals_need_a_truth_value_and_two_branches_of_one_type() {
    let mut env = TypeEnv::new();
    env.insert("c".to_string(), Type::Bool);
    env.insert("n".to_string(), Type::Int);
    assert_eq!(check("if c { 1 } else { 2 }", &env), Ok(1000000004));
    assert_eq!(check("if n { 1 } else { 2 }", &env), Err("Condition of 'if' must be a boolean.".to_string()));
    assert_eq!(check("if c { 1 } else { 2u }", &env), Err("Type mismatch in 'if' branches.".to_string()));
    assert_eq!(check("if c { 1 }", &env), Err("Option must contain an expression.".to_string()));
}

#[test]
fn aggregates_have_the_types_of_their_parts() {
    let env = TypeEnv::new();
    assert_eq!(check("{ a: 1, b: true }", &env), Ok((31 * 1000000010 + 1000000003) * 31 + 1000000004));
    assert_eq!(check("if true { 1 }", &env), Ok(31 * 1000000012 + 1000000004));
    assert_eq!(check("|int -> int| { 1 }", &env), Ok((31 * 1000000011 + 1000000001) * 31 + 1000000001));
    assert_eq!(check("if true { } else { }", &env), Ok(1000000002));
}

#[test]
fn arrays_need_elements_of_one_type() {
    let env = TypeEnv::new();
    let array = |items: Vec<Node>| Expr::Array(items).type_check(&env).map(|t| t.get_sig());
    assert_eq!(array(vec![]), Ok(31 * 1000000009 + 1000000002));
    assert_eq!(array(vec![lit(1), lit(2)]), Ok(31 * 1000000009 + 1000000004));
    assert_eq!(
        array(vec![lit(1), Node::new(0, Expr::Bool(true)), name(1, "x")]),
        Err("Array elements must be of the same type.".to_string())
    );
    assert_eq!(
        array(vec![lit(1), name(1, "x"), Node::new(0, Expr::Bool(true))]),
        Err("Undefined identifier: x".to_string())
    );
    let named = Node::new(
        2,
        Expr::Type(Type::TypeDef { name: "T".to_string(), type_def: Arc::new(Type::Int) }),
    );
    assert_eq!(array(vec![lit(1), named]), Ok(31 * 1000000009 + 1000000004));
}

#[test]
fn a_resolved_tree_passes_the_check() {
    let items = parsing_loop(Parser::new(Lexer::new("1 + 2; { a: 1 }; |int -> int| { $ }"))).unwrap();
    for item in items.iter() {
        assert_eq!(item.require_resolved(), Ok(()));
    }
}

#[test]
fn the_first_unresolved_name_is_reported() {
    let items = parsing_loop(Parser::new(Lexer::new("if c { a + b } else { d }"))).unwrap();
    assert_eq!(items[0].require_resolved(), Err(ParseError::UnknownVariable("c".to_string())));
    let items = parsing_loop(Parser::new(Lexer::new("{ p: 1, q: 2 + z, r: y }"))).unwrap();
    assert_eq!(items[0].require_resolved(), Err(ParseError::UnknownVariable("z".to_string())));
    let items = parsing_loop(Parser::new(Lexer::new("|int -> int| { w }"))).unwrap();
    assert_eq!(items[0].require_resolved(), Err(ParseError::UnknownVariable("w".to_string())));
}

#[test]
fn a_generic_function_is_not_resolved() {
    let items = parsing_loop(Parser::new(Lexer::new("|generic -> int| { 1 }"))).unwrap();
    assert_eq!(
        items[0].require_resolved(),
        Err(ParseError::BadExpress("a type of the function is still generic".to_string()))
    );
}
