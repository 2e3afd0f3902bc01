//! The scope binder: the expressions that the names in scope stand for.
//!
//! There is one scope for a whole program: a name that is bound inside a
//! block stays bound after the block has closed.

use crate::expr::{outcome, ExprModel, Node, NodeModel, ParseError, ParseErrorModel};
use crate::expr::Expr;
use crate::name_map::{find, lookup, lemma_position, put};
use vstd::prelude::*;

verus! {

/// The names in scope, each with the expression bound to it.
pub struct Scope {
    entries: Vec<(String, Node)>,
}

/// The expression that `name` stands for in `scope`; an error where `name`
/// is not bound.
pub open spec fn looked_up(scope: Map<Seq<char>, NodeModel>, name: Seq<char>) -> Result<
    NodeModel,
    ParseErrorModel,
> {
    if scope.contains_key(name) {
        Ok(scope[name])
    } else {
        Err(ParseErrorModel::UnknownVariable(name))
    }
}

/// What `node` is redirected to in `scope`: the expression bound to its name
/// where `node` is an identifier whose name is bound, and `node` itself in
/// every other case.
pub open spec fn redirected(scope: Map<Seq<char>, NodeModel>, node: NodeModel) -> NodeModel {
    match node.expr {
        ExprModel::Identifier(name) => if scope.contains_key(name) {
            scope[name]
        } else {
            node
        },
        _ => node,
    }
}

impl View for Scope {
    type V = Map<Seq<char>, NodeModel>;

    closed spec fn view(&self) -> Map<Seq<char>, NodeModel> {
        Map::new(
            |name: Seq<char>| lookup(self.entries@, name) is Some,
            |name: Seq<char>| lookup(self.entries@, name)->0@,
        )
    }
}

impl Scope {
    /// A scope in which no name is bound.
    pub fn new() -> (r: Scope)
        ensures
            r@ == Map::<Seq<char>, NodeModel>::empty(),
    {
        let r = Scope { entries: Vec::new() };
        proof {
            assert(r@ =~= Map::<Seq<char>, NodeModel>::empty());
        }
        r
    }

    /// Binds `name` to `expr`. A name that is bound already is bound anew.
    pub fn bind(&mut self, name: String, expr: Node)
        ensures
            final(self)@ == old(self)@.insert(name@, expr@),
    {
        put(&mut self.entries, name, expr);
        proof {
            assert(self@ =~= old(self)@.insert(name@, expr@));
        }
    }

    /// Whether `name` is bound.
    pub fn is_bound(&self, name: &String) -> (r: bool)
        ensures
            r == self@.contains_key(name@),
    {
        proof {
            lemma_position(self.entries@, name@);
        }
        find(&self.entries, name).is_some()
    }

    /// The expression bound to `name`.
    pub fn lookup(&self, name: &String) -> (r: Result<Node, ParseError>)
        ensures
            outcome(r) == looked_up(self@, name@),
    {
        proof {
            lemma_position(self.entries@, name@);
        }
        match find(&self.entries, name) {
            Some(i) => Ok(self.entries[i].1.share()),
            None => Err(ParseError::UnknownVariable(name.clone())),
        }
    }

    /// Replaces an identifier whose name is bound by the expression bound to
    /// it, and hands any other expression back as it is.
    pub fn resolve_redirect(&self, expr: Node) -> (r: Node)
        ensures
            r@ == redirected(self@, expr@),
    {
        let found: Option<usize> = match &*expr.expr {
            Expr::Identifier(name) => {
                proof {
                    lemma_position(self.entries@, name@);
                }
                find(&self.entries, name)
            },
            _ => None,
        };
        match found {
            Some(i) => self.entries[i].1.share(),
            None => expr,
        }
    }
}

} // verus!
