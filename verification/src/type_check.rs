//! The types of expressions.

use crate::expr::{node_models, outcome, pair_models, Expr, ExprModel, Node, NodeModel};
use crate::name_map::{find, lemma_position, lookup, put};
use crate::text::joined;
use crate::type_def::{models_of, signature, Type, TypeModel, SIG_BOOL};
use std::sync::Arc;
use vstd::prelude::*;

verus! {

/// The types of the identifiers that a type check may meet.
pub struct TypeEnv {
    entries: Vec<(String, Type)>,
}

impl View for TypeEnv {
    type V = Map<Seq<char>, TypeModel>;

    closed spec fn view(&self) -> Map<Seq<char>, TypeModel> {
        Map::new(
            |name: Seq<char>| lookup(self.entries@, name) is Some,
            |name: Seq<char>| lookup(self.entries@, name)->0@,
        )
    }
}

impl TypeEnv {
    /// An environment that knows no identifier.
    pub fn new() -> (r: TypeEnv)
        ensures
            r@ == Map::<Seq<char>, TypeModel>::empty(),
    {
        let r = TypeEnv { entries: Vec::new() };
        proof {
            assert(r@ =~= Map::<Seq<char>, TypeModel>::empty());
        }
        r
    }

    /// Gives `name` the type `t`.
    pub fn insert(&mut self, name: String, t: Type)
        ensures
            final(self)@ == old(self)@.insert(name@, t@),
    {
        put(&mut self.entries, name, t);
        proof {
            assert(self@ =~= old(self)@.insert(name@, t@));
        }
    }

    /// The type of `name`, if it has one.
    pub fn get(&self, name: &String) -> (r: Option<&Type>)
        ensures
            match r {
                Some(t) => self@.contains_key(name@) && t@ == self@[name@],
                None => !self@.contains_key(name@),
            },
    {
        proof {
            lemma_position(self.entries@, name@);
        }
        match find(&self.entries, name) {
            Some(i) => Some(&self.entries[i].1),
            None => None,
        }
    }
}

/// The type of the elements of an array whose elements `items` follow
/// elements of the type `first`, if any came before. Every element has to be
/// of the type of the first one.
pub open spec fn element_type(
    items: Seq<NodeModel>,
    env: Map<Seq<char>, TypeModel>,
    first: Option<TypeModel>,
) -> Result<Option<TypeModel>, Seq<char>>
    decreases items,
{
    if items.len() == 0 {
        Ok(first)
    } else {
        match type_of(items[0].expr, env) {
            Err(e) => Err(e),
            Ok(t) => {
                let rest = items.subrange(1, items.len() as int);
                match first {
                    None => element_type(rest, env, Some(t)),
                    Some(f) => if signature(f) != signature(t) {
                        Err("Array elements must be of the same type."@)
                    } else {
                        element_type(rest, env, first)
                    },
                }
            },
        }
    }
}

/// The types of the values of `pairs`, in order, after the types `found`.
pub open spec fn field_types(
    pairs: Seq<(Seq<char>, NodeModel)>,
    env: Map<Seq<char>, TypeModel>,
    found: Seq<TypeModel>,
) -> Result<Seq<TypeModel>, Seq<char>>
    decreases pairs,
{
    if pairs.len() == 0 {
        Ok(found)
    } else {
        match type_of(pairs[0].1.expr, env) {
            Err(e) => Err(e),
            Ok(t) => field_types(pairs.subrange(1, pairs.len() as int), env, found.push(t)),
        }
    }
}

/// The type of the last of `items`, all of which have a type; `last` where
/// there are none.
pub open spec fn last_type(
    items: Seq<NodeModel>,
    env: Map<Seq<char>, TypeModel>,
    last: TypeModel,
) -> Result<TypeModel, Seq<char>>
    decreases items,
{
    if items.len() == 0 {
        Ok(last)
    } else {
        match type_of(items[0].expr, env) {
            Err(e) => Err(e),
            Ok(t) => last_type(items.subrange(1, items.len() as int), env, t),
        }
    }
}

/// The type of an expression, or the reason why it has none.
///
/// The parts of an expression are checked from left to right, and the first
/// reason found is the one given. Two types are the same when their
/// signatures are.
pub open spec fn type_of(e: ExprModel, env: Map<Seq<char>, TypeModel>) -> Result<
    TypeModel,
    Seq<char>,
>
    decreases e,
{
    match e {
        ExprModel::Type(t) => Ok(t),
        ExprModel::Bool(_) => Ok(TypeModel::Bool),
        ExprModel::Option(Some(inner)) => match type_of(inner.expr, env) {
            Ok(t) => Ok(TypeModel::Optional(seq![t])),
            Err(e) => Err(e),
        },
        ExprModel::Option(None) => Err("Option must contain an expression."@),
        ExprModel::Int(_) => Ok(TypeModel::Int),
        ExprModel::Uint(_) => Ok(TypeModel::Uint),
        ExprModel::Char(_) => Ok(TypeModel::Char),
        ExprModel::Float(_) => Ok(TypeModel::Float),
        ExprModel::String(_) => Ok(TypeModel::String),
        ExprModel::Array(items) => match element_type(items, env, None) {
            Err(e) => Err(e),
            Ok(Some(t)) => Ok(TypeModel::Array(Box::new(t))),
            Ok(None) => Ok(TypeModel::Array(Box::new(TypeModel::NoneType))),
        },
        ExprModel::Struct(pairs) => match field_types(pairs, env, Seq::empty()) {
            Err(e) => Err(e),
            Ok(types) => Ok(TypeModel::Struct(types)),
        },
        ExprModel::Identifier(name) => if env.contains_key(name) {
            Ok(env[name])
        } else {
            Err("Undefined identifier: "@ + name)
        },
        ExprModel::BinaryOp { left, op, right } => match type_of(left.expr, env) {
            Err(e) => Err(e),
            Ok(l) => match type_of(right.expr, env) {
                Err(e) => Err(e),
                Ok(r) => if l is Int && r is Int {
                    Ok(TypeModel::Int)
                } else {
                    Err("Type mismatch in binary operation."@)
                },
            },
        },
        ExprModel::UnaryOp { op, expr } => match type_of(expr.expr, env) {
            Err(e) => Err(e),
            Ok(_) => Err("Type mismatch in unary operation."@),
        },
        ExprModel::If { condition, then_branch, else_branch } => match type_of(
            condition.expr,
            env,
        ) {
            Err(e) => Err(e),
            Ok(c) => if signature(c) != SIG_BOOL {
                Err("Condition of 'if' must be a boolean."@)
            } else {
                match type_of(then_branch.expr, env) {
                    Err(e) => Err(e),
                    Ok(t) => match type_of(else_branch.expr, env) {
                        Err(e) => Err(e),
                        Ok(f) => if signature(t) == signature(f) {
                            Ok(t)
                        } else {
                            Err("Type mismatch in 'if' branches."@)
                        },
                    },
                }
            },
        },
        ExprModel::Function { param_sig, return_sig, block } => Ok(
            TypeModel::Function(Box::new(TypeModel::Generic), Box::new(TypeModel::Generic)),
        ),
        ExprModel::Block(items) => last_type(items, env, TypeModel::NoneType),
        ExprModel::Param => Err("Params should not be type-checked directly."@),
    }
}

/// The model of what the check of an array's elements gives.
pub open spec fn found_element(r: Result<Option<Type>, String>) -> Result<
    Option<TypeModel>,
    Seq<char>,
> {
    match r {
        Ok(Some(t)) => Ok(Some(t@)),
        Ok(None) => Ok(None),
        Err(e) => Err(e@),
    }
}

/// The model of what the check of a structure's fields gives.
pub open spec fn found_fields(r: Result<Vec<Arc<Type>>, String>) -> Result<
    Seq<TypeModel>,
    Seq<char>,
> {
    match r {
        Ok(types) => Ok(models_of(types@)),
        Err(e) => Err(e@),
    }
}

/// The type of the elements of the array `items`.
fn check_elements(items: &Vec<Node>, env: &TypeEnv) -> (r: Result<Option<Type>, String>)
    ensures
        found_element(r) == element_type(node_models(items@), env@, None),
    decreases items,
{
    let ghost models = node_models(items@);
    let mut first: Option<Type> = None;
    let mut i: usize = 0;
    proof {
        assert(models.subrange(0, models.len() as int) =~= models);
    }
    while i < items.len()
        invariant
            i <= items.len(),
            models == node_models(items@),
            element_type(models, env@, None) == element_type(
                models.subrange(i as int, models.len() as int),
                env@,
                match first {
                    Some(t) => Some(t@),
                    None => None,
                },
            ),
        decreases items.len() - i,
    {
        let item = &items[i];
        assert(*item == items@[i as int]);
        let ghost rest = models.subrange(i as int, models.len() as int);
        proof {
            assert(rest[0] == item@);
            assert(rest.subrange(1, rest.len() as int) =~= models.subrange(
                i as int + 1,
                models.len() as int,
            ));
        }
        let t = match item.expr.type_check(env) {
            Ok(t) => t,
            Err(e) => {
                return Err(e);
            },
        };
        let differs = match &first {
            Some(f) => f.get_sig() != t.get_sig(),
            None => false,
        };
        if differs {
            return Err(String::from_str("Array elements must be of the same type."));
        }
        if first.is_none() {
            first = Some(t);
        }
        i += 1;
    }
    Ok(first)
}

/// The types of the values of `pairs`, in order.
fn check_fields(pairs: &Vec<(String, Node)>, env: &TypeEnv) -> (r: Result<Vec<Arc<Type>>, String>)
    ensures
        found_fields(r) == field_types(pair_models(pairs@), env@, Seq::empty()),
    decreases pairs,
{
    let ghost models = pair_models(pairs@);
    let mut found: Vec<Arc<Type>> = Vec::new();
    let mut i: usize = 0;
    proof {
        assert(models.subrange(0, models.len() as int) =~= models);
        assert(models_of(found@) =~= Seq::<TypeModel>::empty());
    }
    while i < pairs.len()
        invariant
            i <= pairs.len(),
            models == pair_models(pairs@),
            field_types(models, env@, Seq::empty()) == field_types(
                models.subrange(i as int, models.len() as int),
                env@,
                models_of(found@),
            ),
        decreases pairs.len() - i,
    {
        let pair = &pairs[i];
        assert(*pair == pairs@[i as int]);
        let ghost rest = models.subrange(i as int, models.len() as int);
        proof {
            assert(rest[0] == (pair.0@, pair.1@));
            assert(rest.subrange(1, rest.len() as int) =~= models.subrange(
                i as int + 1,
                models.len() as int,
            ));
        }
        let t = match pair.1.expr.type_check(env) {
            Ok(t) => t,
            Err(e) => {
                return Err(e);
            },
        };
        let ghost before = models_of(found@);
        let ghost t_model = t@;
        found.push(Arc::new(t));
        proof {
            assert(models_of(found@) =~= before.push(t_model));
        }
        i += 1;
    }
    Ok(found)
}

/// The type of the last of `items`; `NoneType` where there are none.
fn check_statements(items: &Vec<Node>, env: &TypeEnv) -> (r: Result<Type, String>)
    ensures
        outcome(r) == last_type(node_models(items@), env@, TypeModel::NoneType),
    decreases items,
{
    let ghost models = node_models(items@);
    let mut last = Type::NoneType;
    let mut i: usize = 0;
    proof {
        assert(models.subrange(0, models.len() as int) =~= models);
    }
    while i < items.len()
        invariant
            i <= items.len(),
            models == node_models(items@),
            last_type(models, env@, TypeModel::NoneType) == last_type(
                models.subrange(i as int, models.len() as int),
                env@,
                last@,
            ),
        decreases items.len() - i,
    {
        let item = &items[i];
        assert(*item == items@[i as int]);
        let ghost rest = models.subrange(i as int, models.len() as int);
        proof {
            assert(rest[0] == item@);
            assert(rest.subrange(1, rest.len() as int) =~= models.subrange(
                i as int + 1,
                models.len() as int,
            ));
        }
        last = match item.expr.type_check(env) {
            Ok(t) => t,
            Err(e) => {
                return Err(e);
            },
        };
        i += 1;
    }
    Ok(last)
}

impl Expr {
    /// The type of this expression, or the reason why it has none.
    pub fn type_check(&self, env: &TypeEnv) -> (r: Result<Type, String>)
        ensures
            outcome(r) == type_of(self@, env@),
        decreases self,
    {
        match self {
            Expr::Type(t) => Ok(t.duplicate()),
            Expr::Bool(_) => Ok(Type::Bool),
            Expr::Option(Some(inner)) => {
                match inner.expr.type_check(env) {
                    Ok(t) => {
                        let ghost t_model = t@;
                        let mut variants: Vec<Arc<Type>> = Vec::new();
                        variants.push(Arc::new(t));
                        let r = Type::Optional { variants };
                        proof {
                            assert(r@->Optional_0 =~= seq![t_model]);
                        }
                        Ok(r)
                    },
                    Err(e) => Err(e),
                }
            },
            Expr::Option(None) => Err(String::from_str("Option must contain an expression.")),
            Expr::Int(_) => Ok(Type::Int),
            Expr::Uint(_) => Ok(Type::Uint),
            Expr::Char(_) => Ok(Type::Char),
            Expr::Float(_) => Ok(Type::Float),
            Expr::String(_) => Ok(Type::String),
            Expr::Array(items) => {
                proof {
                    assert(self@->Array_0 =~= node_models(items@));
                }
                match check_elements(items, env) {
                    Err(e) => Err(e),
                    Ok(Some(t)) => Ok(Type::Array { array_type: Arc::new(t) }),
                    Ok(None) => {
                        let nothing = Type::NoneType;
                        assert(nothing@ == TypeModel::NoneType);
                        Ok(Type::Array { array_type: Arc::new(nothing) })
                    },
                }
            },
            Expr::Struct { pairs } => {
                proof {
                    assert(self@->Struct_0 =~= pair_models(pairs@));
                }
                match check_fields(pairs, env) {
                    Err(e) => Err(e),
                    Ok(types) => {
                        let r = Type::Struct { pairs: types };
                        proof {
                            assert(r@->Struct_0 =~= models_of(types@));
                        }
                        Ok(r)
                    },
                }
            },
            Expr::Identifier(name) => {
                match env.get(name) {
                    Some(t) => Ok(t.duplicate()),
                    None => Err(joined(&String::from_str("Undefined identifier: "), name)),
                }
            },
            Expr::BinaryOp { left, op, right } => {
                let l = match left.expr.type_check(env) {
                    Ok(l) => l,
                    Err(e) => {
                        return Err(e);
                    },
                };
                let r = match right.expr.type_check(env) {
                    Ok(r) => r,
                    Err(e) => {
                        return Err(e);
                    },
                };
                match (l, r) {
                    (Type::Int, Type::Int) => Ok(Type::Int),
                    _ => Err(String::from_str("Type mismatch in binary operation.")),
                }
            },
            Expr::UnaryOp { op, expr } => {
                match expr.expr.type_check(env) {
                    Ok(_) => Err(String::from_str("Type mismatch in unary operation.")),
                    Err(e) => Err(e),
                }
            },
            Expr::If { condition, then_branch, else_branch } => {
                let c = match condition.expr.type_check(env) {
                    Ok(c) => c,
                    Err(e) => {
                        return Err(e);
                    },
                };
                if c.get_sig() != SIG_BOOL {
                    return Err(String::from_str("Condition of 'if' must be a boolean."));
                }
                let t = match then_branch.expr.type_check(env) {
                    Ok(t) => t,
                    Err(e) => {
                        return Err(e);
                    },
                };
                let f = match else_branch.expr.type_check(env) {
                    Ok(f) => f,
                    Err(e) => {
                        return Err(e);
                    },
                };
                if t.get_sig() == f.get_sig() {
                    Ok(t)
                } else {
                    Err(String::from_str("Type mismatch in 'if' branches."))
                }
            },
            Expr::Function { param_sig, return_sig, block } => {
                let param = Type::Generic;
                let ret = Type::Generic;
                assert(param@ == TypeModel::Generic && ret@ == TypeModel::Generic);
                Ok(Type::Function { param_type: Arc::new(param), return_type: Arc::new(ret) })
            },
            Expr::Block(items) => {
                proof {
                    assert(self@->Block_0 =~= node_models(items@));
                }
                check_statements(items, env)
            },
            Expr::Param => Err(String::from_str("Params should not be type-checked directly.")),
        }
    }
}

} // verus!
