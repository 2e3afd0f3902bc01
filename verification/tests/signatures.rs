use exprlang::type_def::Type;
use std::sync::Arc;

#[test]
fn primitive_signatures_are_the_fixed_constants() {
    assert_eq!(Type::Generic.get_sig(), 1000000001);
    assert_eq!(Type::NoneType.get_sig(), 1000000002);
    assert_eq!(Type::Bool.get_sig(), 1000000003);
    assert_eq!(Type::Int.get_sig(), 1000000004);
    assert_eq!(Type::Uint.get_sig(), 1000000005);
    assert_eq!(Type::Char.get_sig(), 1000000006);
    assert_eq!(Type::Float.get_sig(), 1000000007);
    assert_eq!(Type::String.get_sig(), 1000000008);
}

#[test]
fn struct_signature_ignores_field_order() {
    let a = Type::Struct { pairs: vec![Arc::new(Type::Int), Arc::new(Type::Float)] };
    let b = Type::Struct { pairs: vec![Arc::new(Type::Float), Arc::new(Type::Int)] };
    assert_eq!(a.get_sig(), b.get_sig());
    assert!(a == b);
}

#[test]
fn optional_signature_ignores_variant_order() {
    let a = Type::Optional {
        variants: vec![Arc::new(Type::Int), Arc::new(Type::String), Arc::new(Type::Bool)],
    };
    let b = Type::Optional {
        variants: vec![Arc::new(Type::Bool), Arc::new(Type::Int), Arc::new(Type::String)],
    };
    assert_eq!(a.get_sig(), b.get_sig());
}

#[test]
fn field_order_does_not_matter_at_any_depth() {
    let inner_a = Type::Struct { pairs: vec![Arc::new(Type::Char), Arc::new(Type::Uint)] };
    let inner_b = Type::Struct { pairs: vec![Arc::new(Type::Uint), Arc::new(Type::Char)] };
    let a = Type::Struct {
        pairs: vec![
            Arc::new(Type::TypeDef { name: "p".to_string(), type_def: Arc::new(inner_a) }),
            Arc::new(Type::TypeDef { name: "q".to_string(), type_def: Arc::new(Type::Int) }),
        ],
    };
    let b = Type::Struct {
        pairs: vec![
            Arc::new(Type::TypeDef { name: "x".to_string(), type_def: Arc::new(Type::Int) }),
            Arc::new(Type::TypeDef { name: "y".to_string(), type_def: Arc::new(inner_b) }),
        ],
    };
    assert_eq!(a.get_sig(), b.get_sig());
}

#[test]
fn different_structures_have_different_signatures() {
    let a = Type::Struct { pairs: vec![Arc::new(Type::Int), Arc::new(Type::Float)] };
    let b = Type::Struct { pairs: vec![Arc::new(Type::Int), Arc::new(Type::Int)] };
    let c = Type::Optional { variants: vec![Arc::new(Type::Int), Arc::new(Type::Float)] };
    assert_ne!(a.get_sig(), b.get_sig());
    assert_ne!(a.get_sig(), c.get_sig());
    assert!(a != b);
}

#[test]
fn struct_fields_fold_in_ascending_order() {
    let t = Type::Struct {
        pairs: vec![Arc::new(Type::String), Arc::new(Type::Bool), Arc::new(Type::Int)],
    };
    let expected =
        ((1000000010u64 * 31 + 1000000003) * 31 + 1000000004).wrapping_mul(31) + 1000000008;
    assert_eq!(t.get_sig(), expected);
}

#[test]
fn sort_signatures_sorts() {
    assert_eq!(exprlang::type_def::sort_signatures(&vec![3, 1, 2, 1, 0]), vec![0, 1, 1, 2, 3]);
    assert_eq!(exprlang::type_def::sort_signatures(&vec![]), Vec::<u64>::new());
    assert_eq!(exprlang::type_def::fold_signature_list(1, &vec![2, 3]), (31 + 2) * 31 + 3);
    assert_eq!(exprlang::type_def::combine_hash(u64::MAX, 5), u64::MAX.wrapping_mul(31).wrapping_add(5));
}

#[test]
fn substitute_puts_a_type_in_the_place_of_generic() {
    let list = Type::Struct {
        pairs: vec![
            Arc::new(Type::Int),
            Arc::new(Type::Array { array_type: Arc::new(Type::Generic) }),
        ],
    };
    let concrete = Arc::new(Type::Bool);
    let expected = Type::Struct {
        pairs: vec![
            Arc::new(Type::Int),
            Arc::new(Type::Array { array_type: Arc::new(Type::Bool) }),
        ],
    };
    assert_eq!(list.substitute(&concrete).get_sig(), expected.get_sig());
    assert_ne!(list.get_sig(), expected.get_sig());
    assert_eq!(Type::Generic.substitute(&concrete).get_sig(), 1000000003);
    assert_eq!(Type::Int.substitute(&concrete).get_sig(), 1000000004);
}
