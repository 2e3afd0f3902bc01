use exprlang::expr::{Expr, Node, ParseError};
use exprlang::scope::Scope;
use exprlang::type_def::Type;
use exprlang::type_env::TypeEnvironment;
use std::sync::Arc;

#[test]
fn declaring_twice_under_two_names_gives_one_canonical_type() {
    let mut env = TypeEnvironment::new();
    let first = env.declare_type("T".to_string(), Type::Int).unwrap();
    let second = env.declare_type("U".to_string(), Type::Int).unwrap();
    assert!(Arc::ptr_eq(&first, &second));
    assert!(Arc::ptr_eq(&env.resolve_type(&"T".to_string()).unwrap(), &first));
    assert!(Arc::ptr_eq(&env.resolve_type(&"U".to_string()).unwrap(), &first));
}

#[test]
fn declaring_a_name_again_fails() {
    let mut env = TypeEnvironment::new();
    env.declare_type("T".to_string(), Type::Int).unwrap();
    assert_eq!(
        env.declare_type("T".to_string(), Type::Int).map(|t| t.get_sig()),
        Err(ParseError::DuplicateTypeName("T".to_string()))
    );
    assert_eq!(
        env.declare_type("T".to_string(), Type::Float).map(|t| t.get_sig()),
        Err(ParseError::DuplicateTypeName("T".to_string()))
    );
    assert_eq!(env.resolve_type(&"T".to_string()).unwrap().get_sig(), 1000000004);
}

#[test]
fn resolving_an_unknown_name_fails() {
    let env = TypeEnvironment::new();
    assert!(!env.is_declared(&"T".to_string()));
    assert_eq!(
        env.resolve_type(&"T".to_string()).map(|t| t.get_sig()),
        Err(ParseError::UnknownType("T".to_string()))
    );
}

#[test]
fn the_first_type_of_a_structure_stays_canonical() {
    let mut env = TypeEnvironment::new();
    let a = Type::Struct { pairs: vec![Arc::new(Type::Int), Arc::new(Type::Bool)] };
    let b = Type::Struct { pairs: vec![Arc::new(Type::Bool), Arc::new(Type::Int)] };
    env.declare_type("A".to_string(), a).unwrap();
    let canonical = env.declare_type("B".to_string(), b).unwrap();
    match &*canonical {
        Type::Struct { pairs } => {
            assert_eq!(pairs[0].get_sig(), 1000000004);
            assert_eq!(pairs[1].get_sig(), 1000000003);
        }
        other => panic!("{:?}", other),
    }
}

#[test]
fn signature_of_is_the_signature() {
    assert_eq!(TypeEnvironment::signature_of(&Type::Char), 1000000006);
}

#[test]
fn composite_signatures_fold_their_members() {
    let array = Type::Array { array_type: Arc::new(Type::Int) };
    assert_eq!(array.get_sig(), 31 * 1000000009 + 1000000004);
    let function =
        Type::Function { param_type: Arc::new(Type::Int), return_type: Arc::new(Type::Float) };
    assert_eq!(function.get_sig(), (31 * 1000000011 + 1000000004) * 31 + 1000000007);
    let optional = Type::Optional { variants: vec![Arc::new(Type::Uint), Arc::new(Type::Bool)] };
    assert_eq!(optional.get_sig(), (31 * 1000000012 + 1000000003) * 31 + 1000000005);
    let empty = Type::Struct { pairs: Vec::new() };
    assert_eq!(empty.get_sig(), 1000000010);
}

#[test]
fn nested_signatures_wrap_at_64_bits() {
    let mut t = Type::Int;
    let mut expected: u64 = 1000000004;
    for _ in 0..20 {
        t = Type::Array { array_type: Arc::new(t) };
        expected = 1000000009u64.wrapping_mul(31).wrapping_add(expected);
    }
    assert_eq!(t.get_sig(), expected);
}

#[test]
fn a_name_does_not_change_a_signature() {
    let named = Type::TypeDef { name: "T".to_string(), type_def: Arc::new(Type::Int) };
    assert_eq!(named.get_sig(), Type::Int.get_sig());
    assert!(named == Type::Int);
    assert!(Type::Int != Type::Uint);
}

#[test]
fn hash_structure_folds_into_a_state() {
    assert_eq!(Type::Int.hash_structure(0), 1000000004);
    assert_eq!(Type::Int.hash_structure(2), 62 + 1000000004);
}

#[test]
fn reduce_gives_the_return_type_of_a_function() {
    let function = Arc::new(Type::Function {
        param_type: Arc::new(Type::Int),
        return_type: Arc::new(Type::Float),
    });
    assert_eq!(Type::reduce(function).get_sig(), 1000000007);
    assert_eq!(Type::reduce(Arc::new(Type::Int)).get_sig(), 1000000004);
}

#[test]
fn duplicate_copies_a_type() {
    let t = Type::Struct { pairs: vec![Arc::new(Type::Int)] };
    assert_eq!(t.duplicate().get_sig(), t.get_sig());
}

#[test]
fn scope_binds_and_looks_up() {
    let mut scope = Scope::new();
    assert_eq!(
        scope.lookup(&"x".to_string()),
        Err(ParseError::UnknownVariable("x".to_string()))
    );
    scope.bind("x".to_string(), Node::new(0, Expr::Int(1)));
    assert_eq!(scope.lookup(&"x".to_string()), Ok(Node::new(0, Expr::Int(1))));
    scope.bind("x".to_string(), Node::new(0, Expr::Int(2)));
    assert_eq!(scope.lookup(&"x".to_string()), Ok(Node::new(0, Expr::Int(2))));
    assert!(scope.is_bound(&"x".to_string()));
    assert!(!scope.is_bound(&"y".to_string()));
}

#[test]
fn scope_redirects_identifiers_only() {
    let mut scope = Scope::new();
    scope.bind("x".to_string(), Node::new(0, Expr::Int(1)));
    let x = Node::new(4, Expr::Identifier("x".to_string()));
    let y = Node::new(5, Expr::Identifier("y".to_string()));
    assert_eq!(scope.resolve_redirect(x), Node::new(0, Expr::Int(1)));
    assert_eq!(scope.resolve_redirect(y.share()), y);
    assert_eq!(
        scope.resolve_redirect(Node::new(0, Expr::String("x".to_string()))),
        Node::new(0, Expr::String("x".to_string()))
    );
}
