//! The check that an expression tree is fully resolved, which a consumer of
//! the tree asks for before it takes the tree over.

use crate::expr::{Expr, ExprModel, Node, NodeModel, ParseError, ParseErrorModel};
use crate::type_def::SIG_GENERIC;
use vstd::prelude::*;

verus! {

/// Why a function with these signatures is not resolved, if it is not: one
/// of its types is still the placeholder `Generic`.
pub open spec fn generic_function(param_sig: u64, return_sig: u64) -> Option<ParseErrorModel> {
    if param_sig == SIG_GENERIC || return_sig == SIG_GENERIC {
        Some(ParseErrorModel::BadExpress("a type of the function is still generic"@))
    } else {
        None
    }
}

/// The first thing in `node` that is not resolved, going through the tree
/// parents first and left to right: an identifier, which gives
/// `UnknownVariable`, or a function one of whose types is still generic.
pub open spec fn unresolved(node: NodeModel) -> Option<ParseErrorModel>
    decreases node,
{
    match node.expr {
        ExprModel::Identifier(name) => Some(ParseErrorModel::UnknownVariable(name)),
        ExprModel::Option(Some(inner)) => unresolved(*inner),
        ExprModel::Array(items) => unresolved_in(items),
        ExprModel::Struct(pairs) => unresolved_among(pairs),
        ExprModel::BinaryOp { left, op, right } => match unresolved(*left) {
            Some(e) => Some(e),
            None => unresolved(*right),
        },
        ExprModel::UnaryOp { op, expr } => unresolved(*expr),
        ExprModel::If { condition, then_branch, else_branch } => match unresolved(*condition) {
            Some(e) => Some(e),
            None => match unresolved(*then_branch) {
                Some(e) => Some(e),
                None => unresolved(*else_branch),
            },
        },
        ExprModel::Function { param_sig, return_sig, block } => match generic_function(
            param_sig,
            return_sig,
        ) {
            Some(e) => Some(e),
            None => unresolved(*block),
        },
        ExprModel::Block(items) => unresolved_in(items),
        _ => None,
    }
}

/// The first thing in `items` that is not resolved.
pub open spec fn unresolved_in(items: Seq<NodeModel>) -> Option<ParseErrorModel>
    decreases items,
{
    if items.len() == 0 {
        None
    } else {
        match unresolved(items[0]) {
            Some(e) => Some(e),
            None => unresolved_in(items.subrange(1, items.len() as int)),
        }
    }
}

/// The first thing in the values of `pairs` that is not resolved.
pub open spec fn unresolved_among(pairs: Seq<(Seq<char>, NodeModel)>) -> Option<ParseErrorModel>
    decreases pairs,
{
    if pairs.len() == 0 {
        None
    } else {
        match unresolved(pairs[0].1) {
            Some(e) => Some(e),
            None => unresolved_among(pairs.subrange(1, pairs.len() as int)),
        }
    }
}

/// What the check gives for a tree whose first unresolved thing is `found`.
pub open spec fn verdict(found: Option<ParseErrorModel>) -> Result<(), ParseErrorModel> {
    match found {
        Some(e) => Err(e),
        None => Ok(()),
    }
}

/// The model of what the check gives.
pub open spec fn checked(r: Result<(), ParseError>) -> Result<(), ParseErrorModel> {
    match r {
        Ok(_) => Ok(()),
        Err(e) => Err(e@),
    }
}

/// Checks that all of `items` are resolved.
fn require_all_resolved(items: &Vec<Node>) -> (r: Result<(), ParseError>)
    ensures
        checked(r) == verdict(unresolved_in(crate::expr::node_models(items@))),
    decreases items,
{
    let ghost models = crate::expr::node_models(items@);
    let mut i: usize = 0;
    proof {
        assert(models.subrange(0, models.len() as int) =~= models);
    }
    while i < items.len()
        invariant
            i <= items.len(),
            models == crate::expr::node_models(items@),
            unresolved_in(models) == unresolved_in(models.subrange(i as int, models.len() as int)),
        decreases items.len() - i,
    {
        let item = &items[i];
        assert(*item == items@[i as int]);
        let ghost rest = models.subrange(i as int, models.len() as int);
        proof {
            assert(rest[0] == item@);
            assert(rest.subrange(1, rest.len() as int) =~= models.subrange(
                i as int + 1,
                models.len() as int,
            ));
        }
        match item.require_resolved() {
            Ok(_) => {},
            Err(e) => {
                return Err(e);
            },
        }
        i += 1;
    }
    Ok(())
}

/// Checks that the values of all of `pairs` are resolved.
fn require_values_resolved(pairs: &Vec<(String, Node)>) -> (r: Result<(), ParseError>)
    ensures
        checked(r) == verdict(unresolved_among(crate::expr::pair_models(pairs@))),
    decreases pairs,
{
    let ghost models = crate::expr::pair_models(pairs@);
    let mut i: usize = 0;
    proof {
        assert(models.subrange(0, models.len() as int) =~= models);
    }
    while i < pairs.len()
        invariant
            i <= pairs.len(),
            models == crate::expr::pair_models(pairs@),
            unresolved_among(models) == unresolved_among(
                models.subrange(i as int, models.len() as int),
            ),
        decreases pairs.len() - i,
    {
        let pair = &pairs[i];
        assert(*pair == pairs@[i as int]);
        let ghost rest = models.subrange(i as int, models.len() as int);
        proof {
            assert(rest[0] == (pair.0@, pair.1@));
            assert(rest.subrange(1, rest.len() as int) =~= models.subrange(
                i as int + 1,
                models.len() as int,
            ));
        }
        match pair.1.require_resolved() {
            Ok(_) => {},
            Err(e) => {
                return Err(e);
            },
        }
        i += 1;
    }
    Ok(())
}

impl Node {
    /// Checks that this tree is fully resolved: that it holds no identifier
    /// and no function one of whose types is still generic. The error names
    /// the first thing that is not resolved.
    pub fn require_resolved(&self) -> (r: Result<(), ParseError>)
        ensures
            checked(r) == verdict(unresolved(self@)),
        decreases self,
    {
        match &*self.expr {
            Expr::Identifier(name) => Err(ParseError::UnknownVariable(name.clone())),
            Expr::Option(Some(inner)) => inner.require_resolved(),
            Expr::Array(items) => {
                proof {
                    assert(self@.expr->Array_0 =~= crate::expr::node_models(items@));
                }
                require_all_resolved(items)
            },
            Expr::Struct { pairs } => {
                proof {
                    assert(self@.expr->Struct_0 =~= crate::expr::pair_models(pairs@));
                }
                require_values_resolved(pairs)
            },
            Expr::BinaryOp { left, op, right } => {
                match left.require_resolved() {
                    Ok(_) => right.require_resolved(),
                    Err(e) => Err(e),
                }
            },
            Expr::UnaryOp { op, expr } => expr.require_resolved(),
            Expr::If { condition, then_branch, else_branch } => {
                match condition.require_resolved() {
                    Ok(_) => match then_branch.require_resolved() {
                        Ok(_) => else_branch.require_resolved(),
                        Err(e) => Err(e),
                    },
                    Err(e) => Err(e),
                }
            },
            Expr::Function { param_sig, return_sig, block } => {
                if *param_sig == SIG_GENERIC || *return_sig == SIG_GENERIC {
                    Err(
                        ParseError::BadExpress(
                            String::from_str("a type of the function is still generic"),
                        ),
                    )
                } else {
                    block.require_resolved()
                }
            },
            Expr::Block(items) => {
                proof {
                    assert(self@.expr->Block_0 =~= crate::expr::node_models(items@));
                }
                require_all_resolved(items)
            },
            _ => Ok(()),
        }
    }
}

} // verus!
