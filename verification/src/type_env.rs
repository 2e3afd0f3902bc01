//! The type interner: declared names, and one canonical type for each
//! structural signature.

use crate::expr::{outcome, ParseError, ParseErrorModel};
use crate::name_map::{find, lookup, put};
use crate::shared::share;
use crate::type_def::{signature, Type, TypeModel};
use std::collections::HashMap;
use std::sync::Arc;
use vstd::prelude::*;

verus! {

broadcast use vstd::std_specs::hash::group_hash_axioms;

/// The declared names and the canonical types.
pub struct TypeEnvironment {
    names: Vec<(String, Arc<Type>)>,
    shapes: HashMap<u64, Arc<Type>>,
}

/// The mathematical value of a [`TypeEnvironment`]: the canonical type that
/// each declared name stands for, and the canonical type of each signature.
pub struct TypeEnvModel {
    pub names: Map<Seq<char>, TypeModel>,
    pub shapes: Map<u64, TypeModel>,
}

impl TypeEnvModel {
    /// Every declared name stands for the canonical type of a signature, and
    /// every canonical type is filed under its own signature.
    pub open spec fn well_formed(self) -> bool {
        &&& forall|name: Seq<char>| #[trigger]
            self.names.contains_key(name) ==> {
                &&& self.shapes.contains_key(signature(self.names[name]))
                &&& self.shapes[signature(self.names[name])] == self.names[name]
            }
        &&& forall|sig: u64| #[trigger]
            self.shapes.contains_key(sig) ==> signature(self.shapes[sig]) == sig
    }

    /// The environment in which nothing is declared.
    pub open spec fn empty() -> TypeEnvModel {
        TypeEnvModel { names: Map::empty(), shapes: Map::empty() }
    }

    /// The canonical type that `name` stands for; an error where `name` is
    /// not declared.
    pub open spec fn resolve(self, name: Seq<char>) -> Result<TypeModel, ParseErrorModel> {
        if self.names.contains_key(name) {
            Ok(self.names[name])
        } else {
            Err(ParseErrorModel::UnknownType(name))
        }
    }

    /// The environment after `name` has been declared as `t`.
    ///
    /// The first type of a signature becomes the canonical type of that
    /// signature; a later one of the same signature leaves it in place.
    pub open spec fn with_declared(self, name: Seq<char>, t: TypeModel) -> TypeEnvModel {
        let sig = signature(t);
        let canonical = if self.shapes.contains_key(sig) {
            self.shapes[sig]
        } else {
            t
        };
        TypeEnvModel {
            names: self.names.insert(name, canonical),
            shapes: self.shapes.insert(sig, canonical),
        }
    }

    /// Declares `name` as `t`: the canonical type of `t`'s signature and the
    /// new environment, or an error and the environment unchanged where
    /// `name` is declared already.
    pub open spec fn declare(self, name: Seq<char>, t: TypeModel) -> (
        Result<TypeModel, ParseErrorModel>,
        TypeEnvModel,
    ) {
        if self.names.contains_key(name) {
            (Err(ParseErrorModel::DuplicateTypeName(name)), self)
        } else {
            let after = self.with_declared(name, t);
            (Ok(after.shapes[signature(t)]), after)
        }
    }
}

impl TypeEnvironment {
    /// The mathematical value of this environment.
    pub closed spec fn model(self) -> TypeEnvModel {
        TypeEnvModel {
            names: Map::new(
                |name: Seq<char>| lookup(self.names@, name) is Some,
                |name: Seq<char>| lookup(self.names@, name)->0@,
            ),
            shapes: Map::new(
                |sig: u64| self.shapes@.contains_key(sig),
                |sig: u64| self.shapes@[sig]@,
            ),
        }
    }
}

impl View for TypeEnvironment {
    type V = TypeEnvModel;

    closed spec fn view(&self) -> TypeEnvModel {
        self.model()
    }
}

impl TypeEnvironment {
    /// An environment in which nothing is declared.
    pub fn new() -> (r: TypeEnvironment)
        ensures
            r@ == TypeEnvModel::empty(),
            r@.well_formed(),
    {
        let r = TypeEnvironment { names: Vec::new(), shapes: HashMap::new() };
        proof {
            assert(r.model().names =~= Map::<Seq<char>, TypeModel>::empty());
            assert(r.model().shapes =~= Map::<u64, TypeModel>::empty());
        }
        r
    }

    /// The structural signature of `t`.
    pub fn signature_of(t: &Type) -> (r: u64)
        ensures
            r == signature(t@),
    {
        t.get_sig()
    }

    /// Whether `name` is declared.
    pub fn is_declared(&self, name: &String) -> (r: bool)
        ensures
            r == self@.names.contains_key(name@),
    {
        proof {
            crate::name_map::lemma_position(self.names@, name@);
        }
        find(&self.names, name).is_some()
    }

    /// The canonical type that `name` stands for.
    pub fn resolve_type(&self, name: &String) -> (r: Result<Arc<Type>, ParseError>)
        ensures
            outcome(r) == self@.resolve(name@),
    {
        proof {
            crate::name_map::lemma_position(self.names@, name@);
        }
        match find(&self.names, name) {
            Some(i) => Ok(share(&self.names[i].1)),
            None => Err(ParseError::UnknownType(name.clone())),
        }
    }

    /// Declares `name` as `t` and gives the canonical type of `t`'s
    /// signature. The name must be new.
    pub fn declare_type(&mut self, name: String, t: Type) -> (r: Result<Arc<Type>, ParseError>)
        ensures
            (outcome(r), final(self)@) == old(self)@.declare(name@, t@),
            r is Err <==> old(self)@.names.contains_key(name@),
            old(self)@.well_formed() ==> final(self)@.well_formed(),
    {
        proof {
            crate::name_map::lemma_position(self.names@, name@);
        }
        if find(&self.names, &name).is_some() {
            return Err(ParseError::DuplicateTypeName(name));
        }
        let ghost before = self.model();
        let ghost key = name@;
        let ghost shape = t@;
        let sig = t.get_sig();
        let canonical = match self.shapes.get(&sig) {
            Some(existing) => share(existing),
            None => {
                let fresh = Arc::new(t);
                self.shapes.insert(sig, share(&fresh));
                fresh
            },
        };
        put(&mut self.names, name, share(&canonical));
        proof {
            let after = before.with_declared(key, shape);
            assert(self.model().names =~= after.names);
            assert(self.model().shapes =~= after.shapes);
            if before.well_formed() {
                lemma_declare_keeps_well_formed(before, key, shape);
            }
        }
        Ok(canonical)
    }
}

/// Declaring a type keeps the environment consistent.
pub proof fn lemma_declare_keeps_well_formed(env: TypeEnvModel, name: Seq<char>, t: TypeModel)
    requires
        env.well_formed(),
    ensures
        env.declare(name, t).1.well_formed(),
{
    if !env.names.contains_key(name) {
        let after = env.with_declared(name, t);
        let sig = signature(t);
        assert forall|other: Seq<char>| #[trigger] after.names.contains_key(other) implies {
            &&& after.shapes.contains_key(signature(after.names[other]))
            &&& after.shapes[signature(after.names[other])] == after.names[other]
        } by {
            if other != name {
                assert(env.names.contains_key(other));
            }
        }
        assert forall|s: u64| #[trigger] after.shapes.contains_key(s) implies signature(
            after.shapes[s],
        ) == s by {
            if s != sig {
                assert(env.shapes.contains_key(s));
            }
        }
    }
}

/// A declaration takes nothing away: every name that was declared stays
/// declared as what it was, and every signature keeps its canonical type.
pub proof fn lemma_declare_keeps_what_is_declared(
    env: TypeEnvModel,
    name: Seq<char>,
    t: TypeModel,
)
    ensures
        forall|other: Seq<char>| #[trigger]
            env.names.contains_key(other) ==> env.declare(name, t).1.resolve(other)
                == env.resolve(other),
        forall|sig: u64| #[trigger]
            env.shapes.contains_key(sig) ==> env.declare(name, t).1.shapes.contains_key(sig)
                && env.declare(name, t).1.shapes[sig] == env.shapes[sig],
{
}

/// Two types of one structure, declared under two new names, unify: both
/// declarations succeed and give the same canonical type, both names resolve
/// to it, and the second declaration adds no canonical type.
pub proof fn lemma_same_structure_unifies(
    env: TypeEnvModel,
    first: Seq<char>,
    t1: TypeModel,
    second: Seq<char>,
    t2: TypeModel,
)
    requires
        env.well_formed(),
        !env.names.contains_key(first),
        !env.names.contains_key(second),
        first != second,
        signature(t1) == signature(t2),
    ensures
        ({
            let (r1, env1) = env.declare(first, t1);
            let (r2, env2) = env1.declare(second, t2);
            &&& r1 is Ok
            &&& r2 == r1
            &&& env2.resolve(first) == r1
            &&& env2.resolve(second) == r1
            &&& env2.shapes == env1.shapes
            &&& env2.well_formed()
        }),
{
    let (r1, env1) = env.declare(first, t1);
    let (r2, env2) = env1.declare(second, t2);
    lemma_declare_keeps_well_formed(env, first, t1);
    lemma_declare_keeps_well_formed(env1, second, t2);
    assert(env2.shapes =~= env1.shapes);
}

/// A name can be declared once: declaring it again fails with
/// `DuplicateTypeName` and changes nothing, whatever type is given, and a
/// declaration fails in no other case.
pub proof fn lemma_redeclaration_fails(env: TypeEnvModel, name: Seq<char>, t: TypeModel)
    ensures
        env.names.contains_key(name) ==> env.declare(name, t) == (
            Err::<TypeModel, ParseErrorModel>(ParseErrorModel::DuplicateTypeName(name)),
            env,
        ),
        !env.names.contains_key(name) ==> env.declare(name, t).0 is Ok,
        env.declare(name, t).1.names.contains_key(name),
{
}

} // verus!
