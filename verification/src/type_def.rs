//! Structural types and their canonical signatures.
//!
//! Two types are the same type exactly when their signatures agree. The
//! signature of a type is computed from its shape alone: names given by
//! `TypeDef` are transparent, and the members of the unordered aggregates
//! (`Struct`, `Optional`) are put in ascending order of their own signatures
//! before they are folded in.

use crate::shared::share;
use std::sync::Arc;
use vstd::prelude::*;
use vstd::relations::{sorted_by, total_ordering};
use vstd::seq_lib::{lemma_sorted_unique, to_multiset_build, to_multiset_insert, to_multiset_remove};

verus! {

/// Discriminant of the placeholder `Generic`.
pub const SIG_GENERIC: u64 = 1000000001;

/// Discriminant of `NoneType`.
pub const SIG_NONE: u64 = 1000000002;

/// Discriminant of `Bool`.
pub const SIG_BOOL: u64 = 1000000003;

/// Discriminant of `Int`.
pub const SIG_INT: u64 = 1000000004;

/// Discriminant of `Uint`.
pub const SIG_UINT: u64 = 1000000005;

/// Discriminant of `Char`.
pub const SIG_CHAR: u64 = 1000000006;

/// Discriminant of `Float`.
pub const SIG_FLOAT: u64 = 1000000007;

/// Discriminant of `String`.
pub const SIG_STRING: u64 = 1000000008;

/// Discriminant of `Array`.
pub const SIG_ARRAY: u64 = 1000000009;

/// Discriminant of `Struct`.
pub const SIG_STRUCT: u64 = 1000000010;

/// Discriminant of `Function`.
pub const SIG_FUNCTION: u64 = 1000000011;

/// Discriminant of `Optional`.
pub const SIG_OPTIONAL: u64 = 1000000012;

/// A type of the language.
#[derive(Debug, Clone)]
pub enum Type {
    /// A named alias; transparent for the signature.
    TypeDef { name: String, type_def: Arc<Type> },
    /// Placeholder for the type that is being declared, inside its own body.
    Generic,
    NoneType,
    Bool,
    Int,
    Uint,
    Char,
    Float,
    String,
    Array { array_type: Arc<Type> },
    /// The field types of a structure, in the order in which they were written.
    Struct { pairs: Vec<Arc<Type>> },
    Function { param_type: Arc<Type>, return_type: Arc<Type> },
    /// The presence variants of an optional value.
    Optional { variants: Vec<Arc<Type>> },
}

/// The mathematical value of a [`Type`].
pub enum TypeModel {
    TypeDef { name: Seq<char>, inner: Box<TypeModel> },
    Generic,
    NoneType,
    Bool,
    Int,
    Uint,
    Char,
    Float,
    String,
    Array(Box<TypeModel>),
    Struct(Seq<TypeModel>),
    Function(Box<TypeModel>, Box<TypeModel>),
    Optional(Seq<TypeModel>),
}

/// One step of the signature fold: `state * 31 + value`, wrapping at 64 bits.
pub open spec fn combine(state: u64, value: u64) -> u64 {
    ((state as int * 31 + value as int) % 0x1_0000_0000_0000_0000) as u64
}

/// Folds `values` into `state`, first to last.
pub open spec fn fold_signatures(state: u64, values: Seq<u64>) -> u64 {
    values.fold_left(state, |acc: u64, value: u64| combine(acc, value))
}

/// The order in which member signatures are folded.
pub open spec fn ascending() -> spec_fn(u64, u64) -> bool {
    |a: u64, b: u64| a <= b
}

/// `values` in ascending order.
pub open spec fn canonical_order(values: Seq<u64>) -> Seq<u64> {
    values.sort_by(ascending())
}

/// The signatures of `types`, element by element.
pub open spec fn signatures_of(types: Seq<TypeModel>) -> Seq<u64>
    decreases types,
{
    Seq::new(
        types.len(),
        |i: int|
            if 0 <= i < types.len() {
                signature(types[i])
            } else {
                0
            },
    )
}

/// The canonical structural signature of a type.
///
/// A primitive type has its discriminant for signature, and a named type the
/// signature of the type it names. An aggregate starts from its discriminant
/// and folds the signatures of its members into it, one by one, by
/// `state * 31 + member`: an array its element, a function its parameter and
/// then its return type, a structure its fields and an optional its variants
/// in ascending order of their signatures.
pub open spec fn signature(t: TypeModel) -> u64
    decreases t,
{
    match t {
        TypeModel::TypeDef { name, inner } => signature(*inner),
        TypeModel::Generic => SIG_GENERIC,
        TypeModel::NoneType => SIG_NONE,
        TypeModel::Bool => SIG_BOOL,
        TypeModel::Int => SIG_INT,
        TypeModel::Uint => SIG_UINT,
        TypeModel::Char => SIG_CHAR,
        TypeModel::Float => SIG_FLOAT,
        TypeModel::String => SIG_STRING,
        TypeModel::Array(element) => combine(SIG_ARRAY, signature(*element)),
        TypeModel::Struct(fields) => fold_signatures(
            SIG_STRUCT,
            canonical_order(signatures_of(fields)),
        ),
        TypeModel::Function(param, ret) => combine(
            combine(SIG_FUNCTION, signature(*param)),
            signature(*ret),
        ),
        TypeModel::Optional(variants) => fold_signatures(
            SIG_OPTIONAL,
            canonical_order(signatures_of(variants)),
        ),
    }
}

impl Type {
    /// The mathematical value of this type.
    pub open spec fn model(&self) -> TypeModel
        decreases self,
    {
        match self {
            Type::TypeDef { name, type_def } => TypeModel::TypeDef {
                name: name@,
                inner: Box::new(type_def.model()),
            },
            Type::Generic => TypeModel::Generic,
            Type::NoneType => TypeModel::NoneType,
            Type::Bool => TypeModel::Bool,
            Type::Int => TypeModel::Int,
            Type::Uint => TypeModel::Uint,
            Type::Char => TypeModel::Char,
            Type::Float => TypeModel::Float,
            Type::String => TypeModel::String,
            Type::Array { array_type } => TypeModel::Array(Box::new(array_type.model())),
            Type::Struct { pairs } => TypeModel::Struct(
                Seq::new(
                    pairs@.len(),
                    |i: int|
                        if 0 <= i < pairs@.len() {
                            pairs@[i].model()
                        } else {
                            TypeModel::NoneType
                        },
                ),
            ),
            Type::Function { param_type, return_type } => TypeModel::Function(
                Box::new(param_type.model()),
                Box::new(return_type.model()),
            ),
            Type::Optional { variants } => TypeModel::Optional(
                Seq::new(
                    variants@.len(),
                    |i: int|
                        if 0 <= i < variants@.len() {
                            variants@[i].model()
                        } else {
                            TypeModel::NoneType
                        },
                ),
            ),
        }
    }
}

impl View for Type {
    type V = TypeModel;

    open spec fn view(&self) -> TypeModel {
        self.model()
    }
}

/// `state * 31 + value`, wrapping at 64 bits.
pub fn combine_hash(state: u64, value: u64) -> (r: u64)
    ensures
        r == combine(state, value),
{
    let scaled = state.wrapping_mul(31);
    let r = scaled.wrapping_add(value);
    proof {
        let m = 0x1_0000_0000_0000_0000int;
        let p = state as int * 31;
        assert(scaled as int == p % m);
        assert((p % m + value as int) % m == (p + value as int) % m) by {
            vstd::arithmetic::div_mod::lemma_add_mod_noop(p, value as int, m);
            vstd::arithmetic::div_mod::lemma_small_mod(value as nat, m as nat);
        }
        assert(0 <= p % m < m);
        if scaled + value > u64::MAX {
            assert((scaled + value) % m == scaled + value - m);
        } else {
            assert((scaled + value) % m == scaled + value);
        }
    }
    r
}

/// The models of a list of types, element by element.
pub open spec fn models_of(types: Seq<Arc<Type>>) -> Seq<TypeModel> {
    Seq::new(types.len(), |i: int| types[i].model())
}

/// `values` ascend from first to last.
pub open spec fn is_ascending(values: Seq<u64>) -> bool {
    forall|i: int, j: int| 0 <= i < j < values.len() ==> values[i] <= values[j]
}

/// `<=` on signatures is a total order.
pub proof fn lemma_ascending_is_total()
    ensures
        total_ordering(ascending()),
{
    let leq = ascending();
    assert(vstd::relations::reflexive(leq));
    assert(vstd::relations::antisymmetric(leq));
    assert(vstd::relations::transitive(leq));
    assert(vstd::relations::strongly_connected(leq));
}

/// The canonical order of `values` is a rearrangement of `values` that
/// ascends.
pub proof fn lemma_canonical_order_ascends(values: Seq<u64>)
    ensures
        is_ascending(canonical_order(values)),
        canonical_order(values).to_multiset() == values.to_multiset(),
{
    lemma_ascending_is_total();
    values.lemma_sort_by_ensures(ascending());
    let arranged = canonical_order(values);
    assert forall|i: int, j: int| 0 <= i < j < arranged.len() implies arranged[i]
        <= arranged[j] by {
        assert(ascending()(arranged[i], arranged[j]));
    }
}

/// An ascending rearrangement of `values` is their canonical order.
pub proof fn lemma_canonical_order_unique(values: Seq<u64>, arranged: Seq<u64>)
    requires
        is_ascending(arranged),
        arranged.to_multiset() == values.to_multiset(),
    ensures
        arranged == canonical_order(values),
{
    lemma_ascending_is_total();
    values.lemma_sort_by_ensures(ascending());
    assert(sorted_by(arranged, ascending()));
    lemma_sorted_unique(arranged, canonical_order(values), ascending());
}

/// The members' signatures in ascending order.
pub fn sort_signatures(values: &Vec<u64>) -> (r: Vec<u64>)
    ensures
        r@ == canonical_order(values@),
{
    let mut arranged: Vec<u64> = Vec::new();
    let mut i: usize = 0;
    proof {
        assert(arranged@ =~= values@.subrange(0, 0));
    }
    while i < values.len()
        invariant
            i <= values.len(),
            is_ascending(arranged@),
            arranged@.to_multiset() == values@.subrange(0, i as int).to_multiset(),
        decreases values.len() - i,
    {
        let value = values[i];
        let mut at: usize = 0;
        while at < arranged.len() && arranged[at] <= value
            invariant
                at <= arranged.len(),
                forall|k: int| 0 <= k < at ==> arranged@[k] <= value,
            decreases arranged.len() - at,
        {
            at += 1;
        }
        let ghost before = arranged@;
        arranged.insert(at, value);
        proof {
            assert(is_ascending(arranged@)) by {
                assert forall|a: int, b: int| 0 <= a < b < arranged@.len() implies arranged@[a]
                    <= arranged@[b] by {
                    if b < at {
                        assert(arranged@[a] == before[a] && arranged@[b] == before[b]);
                    } else if b == at {
                        assert(arranged@[a] == before[a]);
                    } else if a < at {
                        assert(arranged@[a] == before[a] && arranged@[b] == before[b - 1]);
                    } else if a == at {
                        assert(arranged@[b] == before[b - 1]);
                        assert(before[at as int] > value);
                        assert(at as int <= b - 1);
                    } else {
                        assert(arranged@[a] == before[a - 1] && arranged@[b] == before[b - 1]);
                    }
                }
            }
            to_multiset_insert(before, at as int, value);
            let front = values@.subrange(0, i as int);
            to_multiset_build(front, value);
            assert(values@.subrange(0, i as int + 1) =~= front.push(value));
        }
        i += 1;
    }
    proof {
        assert(values@.subrange(0, i as int) =~= values@);
        lemma_canonical_order_unique(values@, arranged@);
    }
    arranged
}

/// Folds `values` into `state`, first to last.
pub fn fold_signature_list(state: u64, values: &Vec<u64>) -> (r: u64)
    ensures
        r == fold_signatures(state, values@),
{
    let mut acc = state;
    let mut i: usize = 0;
    while i < values.len()
        invariant
            i <= values.len(),
            acc == fold_signatures(state, values@.subrange(0, i as int)),
        decreases values.len() - i,
    {
        let ghost front = values@.subrange(0, i as int + 1);
        proof {
            assert(front.drop_last() =~= values@.subrange(0, i as int));
            assert(front.last() == values@[i as int]);
        }
        acc = combine_hash(acc, values[i]);
        i += 1;
    }
    proof {
        assert(values@.subrange(0, i as int) =~= values@);
    }
    acc
}

impl Type {
    /// The signatures of `members`, in the order in which they stand.
    fn member_signatures(members: &Vec<Arc<Type>>) -> (r: Vec<u64>)
        ensures
            r@ == signatures_of(models_of(members@)),
        decreases members,
    {
        let mut sigs: Vec<u64> = Vec::new();
        let mut i: usize = 0;
        while i < members.len()
            invariant
                i <= members.len(),
                sigs@.len() == i,
                forall|k: int| 0 <= k < i ==> sigs@[k] == signature(members@[k].model()),
            decreases members.len() - i,
        {
            let member = &members[i];
            assert(*member == members@[i as int]);
            let sig = member.get_sig();
            sigs.push(sig);
            i += 1;
        }
        proof {
            assert(sigs@ =~= signatures_of(models_of(members@)));
        }
        sigs
    }

    /// The canonical structural signature of this type.
    pub fn get_sig(&self) -> (r: u64)
        ensures
            r == signature(self@),
        decreases self,
    {
        match self {
            Type::TypeDef { name, type_def } => type_def.get_sig(),
            Type::Generic => SIG_GENERIC,
            Type::NoneType => SIG_NONE,
            Type::Bool => SIG_BOOL,
            Type::Int => SIG_INT,
            Type::Uint => SIG_UINT,
            Type::Char => SIG_CHAR,
            Type::Float => SIG_FLOAT,
            Type::String => SIG_STRING,
            Type::Array { array_type } => combine_hash(SIG_ARRAY, array_type.get_sig()),
            Type::Struct { pairs } => {
                let sigs = Type::member_signatures(pairs);
                let arranged = sort_signatures(&sigs);
                proof {
                    assert(self@->Struct_0 =~= models_of(pairs@));
                }
                fold_signature_list(SIG_STRUCT, &arranged)
            },
            Type::Function { param_type, return_type } => {
                let state = combine_hash(SIG_FUNCTION, param_type.get_sig());
                combine_hash(state, return_type.get_sig())
            },
            Type::Optional { variants } => {
                let sigs = Type::member_signatures(variants);
                let arranged = sort_signatures(&sigs);
                proof {
                    assert(self@->Optional_0 =~= models_of(variants@));
                }
                fold_signature_list(SIG_OPTIONAL, &arranged)
            },
        }
    }

    /// Folds this type's signature into `state`.
    pub fn hash_structure(&self, state: u64) -> (r: u64)
        ensures
            r == combine(state, signature(self@)),
    {
        combine_hash(state, self.get_sig())
    }

    /// What a value of type `t` yields when it is applied: the return type of
    /// a function type, and `t` itself for any other type.
    pub fn reduce(t: Arc<Type>) -> (r: Arc<Type>)
        ensures
            r@ == reduced(t@),
    {
        match &*t {
            Type::Function { param_type, return_type } => share(return_type),
            _ => t,
        }
    }
}

/// The return type of a function type, and `t` itself for any other type.
pub open spec fn reduced(t: TypeModel) -> TypeModel {
    match t {
        TypeModel::Function(param, ret) => *ret,
        _ => t,
    }
}

/// Two rearrangements of one list of signatures have one canonical order.
pub proof fn lemma_canonical_order_ignores_arrangement(x: Seq<u64>, y: Seq<u64>)
    requires
        x.to_multiset() == y.to_multiset(),
    ensures
        canonical_order(x) == canonical_order(y),
{
    lemma_ascending_is_total();
    x.lemma_sort_by_ensures(ascending());
    y.lemma_sort_by_ensures(ascending());
    lemma_sorted_unique(canonical_order(x), canonical_order(y), ascending());
}

/// The signatures of two rearrangements of one list of types are
/// rearrangements of one list of signatures.
pub proof fn lemma_signatures_follow_arrangement(a: Seq<TypeModel>, b: Seq<TypeModel>)
    requires
        a.to_multiset() == b.to_multiset(),
    ensures
        signatures_of(a).to_multiset() == signatures_of(b).to_multiset(),
    decreases a.len(),
{
    broadcast use vstd::seq_lib::to_multiset_len;

    assert(a.to_multiset().len() == a.len());
    assert(b.to_multiset().len() == b.len());
    if a.len() == 0 {
        assert(signatures_of(a) =~= signatures_of(b));
    } else {
        let x = a.last();
        let front = a.drop_last();
        assert(a =~= front.push(x));
        to_multiset_build(front, x);
        vstd::seq_lib::to_multiset_contains(b, x);
        assert(b.contains(x));
        let k = choose|k: int| 0 <= k < b.len() && b[k] == x;
        let rest = b.remove(k);
        to_multiset_remove(b, k);
        assert(rest.to_multiset() =~= front.to_multiset());
        lemma_signatures_follow_arrangement(front, rest);
        let sx = signature(x);
        assert(signatures_of(a) =~= signatures_of(front).push(sx));
        to_multiset_build(signatures_of(front), sx);
        assert(signatures_of(b).remove(k) =~= signatures_of(rest));
        to_multiset_remove(signatures_of(b), k);
        vstd::seq_lib::to_multiset_contains(signatures_of(b), sx);
        assert(signatures_of(b)[k] == sx);
        assert(signatures_of(b).contains(sx));
        assert(signatures_of(b).to_multiset() =~= signatures_of(rest).to_multiset().insert(sx));
    }
}

/// The signature of a structure depends on the signatures of its fields
/// only, whatever their order and whatever else the fields are.
pub proof fn lemma_struct_signature_by_field_signatures(a: Seq<TypeModel>, b: Seq<TypeModel>)
    requires
        signatures_of(a).to_multiset() == signatures_of(b).to_multiset(),
    ensures
        signature(TypeModel::Struct(a)) == signature(TypeModel::Struct(b)),
{
    lemma_canonical_order_ignores_arrangement(signatures_of(a), signatures_of(b));
}

/// Two structures whose field lists differ in order only have the same
/// signature.
pub proof fn lemma_struct_signature_ignores_field_order(a: Seq<TypeModel>, b: Seq<TypeModel>)
    requires
        a.to_multiset() == b.to_multiset(),
    ensures
        signature(TypeModel::Struct(a)) == signature(TypeModel::Struct(b)),
{
    lemma_signatures_follow_arrangement(a, b);
    lemma_struct_signature_by_field_signatures(a, b);
}

/// Two optionals whose variant lists differ in order only have the same
/// signature.
pub proof fn lemma_optional_signature_ignores_variant_order(
    a: Seq<TypeModel>,
    b: Seq<TypeModel>,
)
    requires
        a.to_multiset() == b.to_multiset(),
    ensures
        signature(TypeModel::Optional(a)) == signature(TypeModel::Optional(b)),
{
    lemma_signatures_follow_arrangement(a, b);
    lemma_canonical_order_ignores_arrangement(signatures_of(a), signatures_of(b));
}

/// A name does not change a signature: an alias has the signature of the
/// type it names.
pub proof fn lemma_alias_is_transparent(name: Seq<char>, inner: TypeModel)
    ensures
        signature(TypeModel::TypeDef { name, inner: Box::new(inner) }) == signature(inner),
{
}

/// Other handles to the same types, in the same order.
fn share_all(members: &Vec<Arc<Type>>) -> (r: Vec<Arc<Type>>)
    ensures
        r@ == members@,
{
    let mut copies: Vec<Arc<Type>> = Vec::new();
    let mut i: usize = 0;
    while i < members.len()
        invariant
            i <= members.len(),
            copies@ == members@.subrange(0, i as int),
        decreases members.len() - i,
    {
        copies.push(share(&members[i]));
        proof {
            assert(copies@ =~= members@.subrange(0, i as int + 1));
        }
        i += 1;
    }
    proof {
        assert(members@.subrange(0, i as int) =~= members@);
    }
    copies
}

impl Type {
    /// A copy of this type. The copy shares the parts of the type it is made
    /// from.
    pub fn duplicate(&self) -> (r: Type)
        ensures
            r@ == self@,
    {
        match self {
            Type::TypeDef { name, type_def } => Type::TypeDef {
                name: name.clone(),
                type_def: share(type_def),
            },
            Type::Generic => Type::Generic,
            Type::NoneType => Type::NoneType,
            Type::Bool => Type::Bool,
            Type::Int => Type::Int,
            Type::Uint => Type::Uint,
            Type::Char => Type::Char,
            Type::Float => Type::Float,
            Type::String => Type::String,
            Type::Array { array_type } => Type::Array { array_type: share(array_type) },
            Type::Struct { pairs } => {
                let r = Type::Struct { pairs: share_all(pairs) };
                proof {
                    assert(r@->Struct_0 =~= self@->Struct_0);
                }
                r
            },
            Type::Function { param_type, return_type } => Type::Function {
                param_type: share(param_type),
                return_type: share(return_type),
            },
            Type::Optional { variants } => {
                let r = Type::Optional { variants: share_all(variants) };
                proof {
                    assert(r@->Optional_0 =~= self@->Optional_0);
                }
                r
            },
        }
    }
}

impl PartialEq for Type {
    /// Two types are equal when their signatures are.
    fn eq(&self, other: &Self) -> (r: bool) {
        self.get_sig() == other.get_sig()
    }
}

impl vstd::std_specs::cmp::PartialEqSpecImpl for Type {
    open spec fn obeys_eq_spec() -> bool {
        true
    }

    open spec fn eq_spec(&self, other: &Self) -> bool {
        signature(self@) == signature(other@)
    }
}

/// `t` with `concrete` in the place of every `Generic`.
pub open spec fn substituted(t: TypeModel, concrete: TypeModel) -> TypeModel
    decreases t,
{
    match t {
        TypeModel::TypeDef { name, inner } => TypeModel::TypeDef {
            name,
            inner: Box::new(substituted(*inner, concrete)),
        },
        TypeModel::Generic => concrete,
        TypeModel::Array(element) => TypeModel::Array(Box::new(substituted(*element, concrete))),
        TypeModel::Struct(fields) => TypeModel::Struct(all_substituted(fields, concrete)),
        TypeModel::Function(param, ret) => TypeModel::Function(
            Box::new(substituted(*param, concrete)),
            Box::new(substituted(*ret, concrete)),
        ),
        TypeModel::Optional(variants) => TypeModel::Optional(all_substituted(variants, concrete)),
        _ => t,
    }
}

/// Each of `types` with `concrete` in the place of every `Generic`.
pub open spec fn all_substituted(types: Seq<TypeModel>, concrete: TypeModel) -> Seq<TypeModel>
    decreases types,
{
    Seq::new(
        types.len(),
        |i: int|
            if 0 <= i < types.len() {
                substituted(types[i], concrete)
            } else {
                TypeModel::Generic
            },
    )
}

impl Type {
    /// Each of `members` with `concrete` in the place of every `Generic`.
    fn substitute_all(members: &Vec<Arc<Type>>, concrete: &Arc<Type>) -> (r: Vec<Arc<Type>>)
        ensures
            models_of(r@) == all_substituted(models_of(members@), concrete@),
        decreases members,
    {
        let mut out: Vec<Arc<Type>> = Vec::new();
        let mut i: usize = 0;
        while i < members.len()
            invariant
                i <= members.len(),
                out@.len() == i,
                forall|k: int|
                    0 <= k < i ==> (#[trigger] out@[k]).model() == substituted(
                        members@[k].model(),
                        concrete@,
                    ),
            decreases members.len() - i,
        {
            let member = &members[i];
            assert(*member == members@[i as int]);
            out.push(member.substitute(concrete));
            i += 1;
        }
        proof {
            assert(models_of(out@) =~= all_substituted(models_of(members@), concrete@));
        }
        out
    }

    /// This type with `concrete` in the place of every `Generic`.
    pub fn substitute(&self, concrete: &Arc<Type>) -> (r: Arc<Type>)
        ensures
            r@ == substituted(self@, concrete@),
        decreases self,
    {
        match self {
            Type::TypeDef { name, type_def } => Arc::new(
                Type::TypeDef { name: name.clone(), type_def: type_def.substitute(concrete) },
            ),
            Type::Generic => share(concrete),
            Type::Array { array_type } => Arc::new(
                Type::Array { array_type: array_type.substitute(concrete) },
            ),
            Type::Struct { pairs } => {
                let r = Type::Struct { pairs: Type::substitute_all(pairs, concrete) };
                proof {
                    assert(self@->Struct_0 =~= models_of(pairs@));
                    assert(r@->Struct_0 =~= all_substituted(models_of(pairs@), concrete@));
                }
                Arc::new(r)
            },
            Type::Function { param_type, return_type } => Arc::new(
                Type::Function {
                    param_type: param_type.substitute(concrete),
                    return_type: return_type.substitute(concrete),
                },
            ),
            Type::Optional { variants } => {
                let r = Type::Optional { variants: Type::substitute_all(variants, concrete) };
                proof {
                    assert(self@->Optional_0 =~= models_of(variants@));
                    assert(r@->Optional_0 =~= all_substituted(models_of(variants@), concrete@));
                }
                Arc::new(r)
            },
            _ => Arc::new(self.duplicate()),
        }
    }
}

} // verus!
