//! Expressions, and the constructors that fold constants as they build.

use crate::lexer::{Op, Token, TokenModel};
use crate::shared::share;
use crate::text::{chars_of, joined, push_char};
use crate::type_def::{Type, TypeModel, SIG_GENERIC};
use std::sync::Arc;
use vstd::prelude::*;

verus! {

/// An expression together with its identity.
///
/// Two nodes that are not literals are the same node exactly when their
/// identities agree. Literals are known by their value, and their identity
/// is not looked at.
#[derive(Debug, Clone, PartialEq)]
pub struct Node {
    pub id: u64,
    pub expr: Arc<Expr>,
}

/// An expression of the language.
#[derive(Debug, Clone, PartialEq)]
pub enum Expr {
    Type(Type),
    Bool(bool),
    /// An optional value: present with a value, or absent.
    Option(Option<Node>),
    Int(i64),
    Uint(u64),
    Char(char),
    /// A number with a decimal point, kept as it was written.
    Float(String),
    String(String),
    Array(Vec<Node>),
    /// The fields of a structure by name, in the order in which the names
    /// first appeared.
    Struct { pairs: Vec<(String, Node)> },
    Identifier(String),
    BinaryOp { left: Node, op: Op, right: Node },
    UnaryOp { op: Op, expr: Node },
    If { condition: Node, then_branch: Node, else_branch: Node },
    Function { param_sig: u64, return_sig: u64, block: Node },
    Block(Vec<Node>),
    /// The argument of the enclosing function.
    Param,
}

/// The mathematical value of a [`Node`].
pub struct NodeModel {
    pub id: nat,
    pub expr: ExprModel,
}

/// The mathematical value of an [`Expr`].
pub enum ExprModel {
    Type(TypeModel),
    Bool(bool),
    Option(Option<Box<NodeModel>>),
    Int(i64),
    Uint(u64),
    Char(char),
    Float(Seq<char>),
    String(Seq<char>),
    Array(Seq<NodeModel>),
    Struct(Seq<(Seq<char>, NodeModel)>),
    Identifier(Seq<char>),
    BinaryOp { left: Box<NodeModel>, op: Op, right: Box<NodeModel> },
    UnaryOp { op: Op, expr: Box<NodeModel> },
    If { condition: Box<NodeModel>, then_branch: Box<NodeModel>, else_branch: Box<NodeModel> },
    Function { param_sig: u64, return_sig: u64, block: Box<NodeModel> },
    Block(Seq<NodeModel>),
    Param,
}

impl Node {
    /// The mathematical value of this node.
    pub open spec fn model(&self) -> NodeModel
        decreases self, 1int,
    {
        NodeModel { id: self.id as nat, expr: self.expr.model() }
    }
}

impl Expr {
    /// The mathematical value of this expression.
    pub open spec fn model(&self) -> ExprModel
        decreases self, 0int,
    {
        match self {
            Expr::Type(t) => ExprModel::Type(t@),
            Expr::Bool(b) => ExprModel::Bool(*b),
            Expr::Option(inner) => ExprModel::Option(
                match inner {
                    Some(node) => Some(Box::new(node.model())),
                    None => None,
                },
            ),
            Expr::Int(i) => ExprModel::Int(*i),
            Expr::Uint(u) => ExprModel::Uint(*u),
            Expr::Char(c) => ExprModel::Char(*c),
            Expr::Float(text) => ExprModel::Float(text@),
            Expr::String(text) => ExprModel::String(text@),
            Expr::Array(items) => ExprModel::Array(
                Seq::new(
                    items@.len(),
                    |i: int|
                        if 0 <= i < items@.len() {
                            items@[i].model()
                        } else {
                            arbitrary()
                        },
                ),
            ),
            Expr::Struct { pairs } => ExprModel::Struct(
                Seq::new(
                    pairs@.len(),
                    |i: int|
                        if 0 <= i < pairs@.len() {
                            (pairs@[i].0@, pairs@[i].1.model())
                        } else {
                            arbitrary()
                        },
                ),
            ),
            Expr::Identifier(name) => ExprModel::Identifier(name@),
            Expr::BinaryOp { left, op, right } => ExprModel::BinaryOp {
                left: Box::new(left.model()),
                op: *op,
                right: Box::new(right.model()),
            },
            Expr::UnaryOp { op, expr } => ExprModel::UnaryOp {
                op: *op,
                expr: Box::new(expr.model()),
            },
            Expr::If { condition, then_branch, else_branch } => ExprModel::If {
                condition: Box::new(condition.model()),
                then_branch: Box::new(then_branch.model()),
                else_branch: Box::new(else_branch.model()),
            },
            Expr::Function { param_sig, return_sig, block } => ExprModel::Function {
                param_sig: *param_sig,
                return_sig: *return_sig,
                block: Box::new(block.model()),
            },
            Expr::Block(items) => ExprModel::Block(
                Seq::new(
                    items@.len(),
                    |i: int|
                        if 0 <= i < items@.len() {
                            items@[i].model()
                        } else {
                            arbitrary()
                        },
                ),
            ),
            Expr::Param => ExprModel::Param,
        }
    }
}

impl View for Node {
    type V = NodeModel;

    open spec fn view(&self) -> NodeModel {
        self.model()
    }
}

impl View for Expr {
    type V = ExprModel;

    open spec fn view(&self) -> ExprModel {
        self.model()
    }
}

/// The models of a list of nodes, element by element.
pub open spec fn node_models(nodes: Seq<Node>) -> Seq<NodeModel> {
    Seq::new(nodes.len(), |i: int| nodes[i]@)
}

/// The models of a list of named nodes, element by element.
pub open spec fn pair_models(pairs: Seq<(String, Node)>) -> Seq<(Seq<char>, NodeModel)> {
    Seq::new(pairs.len(), |i: int| (pairs[i].0@, pairs[i].1@))
}

/// What went wrong while an expression was read or built.
#[derive(Debug, PartialEq)]
pub enum ParseError {
    /// The token that was found, and what was expected in its place.
    UnexpectedToken(Token, String),
    /// Why an expression cannot be built or used.
    BadExpress(String),
    /// A type of this name has been declared before.
    DuplicateTypeName(String),
    /// No type of this name has been declared.
    UnknownType(String),
    /// No variable of this name is bound.
    UnknownVariable(String),
    /// A minus sign stands before what is not a number.
    ExpectedNumericOperand,
}

/// The mathematical value of a [`ParseError`].
pub enum ParseErrorModel {
    UnexpectedToken(TokenModel, Seq<char>),
    BadExpress(Seq<char>),
    DuplicateTypeName(Seq<char>),
    UnknownType(Seq<char>),
    UnknownVariable(Seq<char>),
    ExpectedNumericOperand,
}

impl View for ParseError {
    type V = ParseErrorModel;

    open spec fn view(&self) -> ParseErrorModel {
        match self {
            ParseError::UnexpectedToken(token, expected) => ParseErrorModel::UnexpectedToken(
                token@,
                expected@,
            ),
            ParseError::BadExpress(reason) => ParseErrorModel::BadExpress(reason@),
            ParseError::DuplicateTypeName(name) => ParseErrorModel::DuplicateTypeName(name@),
            ParseError::UnknownType(name) => ParseErrorModel::UnknownType(name@),
            ParseError::UnknownVariable(name) => ParseErrorModel::UnknownVariable(name@),
            ParseError::ExpectedNumericOperand => ParseErrorModel::ExpectedNumericOperand,
        }
    }
}

/// The model of a result: that of the value, or that of the error.
pub open spec fn outcome<T: View, E: View>(r: Result<T, E>) -> Result<T::V, E::V> {
    match r {
        Ok(value) => Ok(value@),
        Err(error) => Err(error@),
    }
}

/// Whether an expression is a literal: a value of a primitive kind, or the
/// absent optional.
pub open spec fn is_literal(e: ExprModel) -> bool {
    is_primitive(e) || e == ExprModel::Option(None)
}

/// Whether an expression is a value of a primitive kind.
pub open spec fn is_primitive(e: ExprModel) -> bool {
    e is Bool || e is Uint || e is Int || e is Float || e is Char || e is String
}

/// Whether an expression is a number or a truth value.
pub open spec fn is_numeric_or_bool(e: ExprModel) -> bool {
    e is Bool || e is Uint || e is Int || e is Float
}

/// The name of the primitive kind of an expression.
pub open spec fn primitive_name(e: ExprModel) -> Seq<char> {
    match e {
        ExprModel::Bool(_) => "bool"@,
        ExprModel::Uint(_) => "uint"@,
        ExprModel::Int(_) => "int"@,
        ExprModel::Float(_) => "float"@,
        ExprModel::Char(_) => "char"@,
        ExprModel::String(_) => "string"@,
        _ => "Complex Expr"@,
    }
}

/// Whether two nodes are one and the same node.
pub open spec fn same_node(a: NodeModel, b: NodeModel) -> bool {
    !is_literal(a.expr) && !is_literal(b.expr) && a.id == b.id
}

/// A node for a binary operation that is left to be evaluated later.
pub open spec fn deferred(op: Op, left: NodeModel, right: NodeModel) -> ExprModel {
    ExprModel::BinaryOp { left: Box::new(left), op, right: Box::new(right) }
}

/// `v` as a signed number of 64 bits, if it is one.
pub open spec fn as_int(v: int) -> Option<i64> {
    if i64::MIN <= v <= i64::MAX {
        Some(v as i64)
    } else {
        None
    }
}

/// `v` as an unsigned number of 64 bits, if it is one.
pub open spec fn as_uint(v: int) -> Option<u64> {
    if 0 <= v <= u64::MAX {
        Some(v as u64)
    } else {
        None
    }
}

/// The quotient of `a` by `b`, rounded towards zero.
pub open spec fn quotient(a: int, b: int) -> int
    recommends
        b != 0,
{
    if a >= 0 && b > 0 {
        a / b
    } else if a < 0 && b < 0 {
        (-a) / (-b)
    } else if a < 0 {
        -((-a) / b)
    } else {
        -(a / (-b))
    }
}

/// What is left of `a` after the division by `b` that rounds towards zero;
/// it has the sign of `a`.
pub open spec fn remainder(a: int, b: int) -> int
    recommends
        b != 0,
{
    if a >= 0 && b > 0 {
        a % b
    } else if a < 0 && b < 0 {
        -((-a) % (-b))
    } else if a < 0 {
        -((-a) % b)
    } else {
        a % (-b)
    }
}

/// The result of an arithmetic operator on two signed numbers, where there
/// is one that 64 bits hold. There is no result for a zero divisor, nor for
/// the remainder of the least number by `-1`, whose quotient 64 bits do not
/// hold.
pub open spec fn int_result(op: Op, a: i64, b: i64) -> Option<i64> {
    match op {
        Op::Add => as_int(a + b),
        Op::Sub => as_int(a - b),
        Op::Mul => as_int(a * b),
        Op::Div => if b == 0 {
            None
        } else {
            as_int(quotient(a as int, b as int))
        },
        Op::Mod => if b == 0 || (a == i64::MIN && b == -1) {
            None
        } else {
            as_int(remainder(a as int, b as int))
        },
        _ => None,
    }
}

/// The result of an arithmetic operator on two unsigned numbers, where
/// there is one that 64 bits hold. There is no result for a zero divisor.
pub open spec fn uint_result(op: Op, a: u64, b: u64) -> Option<u64> {
    match op {
        Op::Add => as_uint(a + b),
        Op::Sub => as_uint(a - b),
        Op::Mul => as_uint(a * b),
        Op::Div => if b == 0 {
            None
        } else {
            as_uint(a as int / b as int)
        },
        Op::Mod => if b == 0 {
            None
        } else {
            as_uint(a as int % b as int)
        },
        _ => None,
    }
}

/// The literal that an arithmetic operator folds two operands to, if it
/// folds them: two `Int`s or two `Uint`s whose result 64 bits hold, and for
/// `Add` two `String`s.
pub open spec fn arithmetic_fold(op: Op, left: ExprModel, right: ExprModel) -> Option<ExprModel> {
    match (left, right) {
        (ExprModel::Int(a), ExprModel::Int(b)) => match int_result(op, a, b) {
            Some(v) => Some(ExprModel::Int(v)),
            None => None,
        },
        (ExprModel::Uint(a), ExprModel::Uint(b)) => match uint_result(op, a, b) {
            Some(v) => Some(ExprModel::Uint(v)),
            None => None,
        },
        (ExprModel::String(a), ExprModel::String(b)) => if op == Op::Add {
            Some(ExprModel::String(a + b))
        } else {
            None
        },
        _ => None,
    }
}

/// Whether two literals of one kind are equal, where their values decide it:
/// two `Bool`s, `Int`s, `Uint`s, `Char`s or `String`s, or two absent
/// optionals.
pub open spec fn value_equality(left: ExprModel, right: ExprModel) -> Option<bool> {
    match (left, right) {
        (ExprModel::Bool(a), ExprModel::Bool(b)) => Some(a == b),
        (ExprModel::Int(a), ExprModel::Int(b)) => Some(a == b),
        (ExprModel::Uint(a), ExprModel::Uint(b)) => Some(a == b),
        (ExprModel::Char(a), ExprModel::Char(b)) => Some(a == b),
        (ExprModel::String(a), ExprModel::String(b)) => Some(a == b),
        (ExprModel::Option(None), ExprModel::Option(None)) => Some(true),
        _ => None,
    }
}

/// What a comparison builds, for equality (`negate` is false) or inequality.
///
/// Two literals of one kind are compared by value. Failing that, a left
/// operand that is a number or a truth value leaves the comparison for
/// later; any other left operand is compared with the right one by
/// identity.
pub open spec fn comparison(negate: bool, left: NodeModel, right: NodeModel) -> ExprModel {
    match value_equality(left.expr, right.expr) {
        Some(equal) => ExprModel::Bool(equal != negate),
        None => if is_numeric_or_bool(left.expr) {
            deferred(
                if negate {
                    Op::Neq
                } else {
                    Op::Eq
                },
                left,
                right,
            )
        } else {
            ExprModel::Bool(same_node(left, right) != negate)
        },
    }
}

/// What a binary operator builds from two operands.
///
/// `==` and `!=` build what `comparison` says. An arithmetic operator folds
/// two literals of one kind to a literal where `arithmetic_fold` has a
/// result. Every other operation is built as a node and left for later:
/// operands of different kinds, operands that are no literals, two floats,
/// a division by zero, and a result that 64 bits do not hold.
pub open spec fn binary(op: Op, left: NodeModel, right: NodeModel) -> ExprModel {
    match op {
        Op::Eq => comparison(false, left, right),
        Op::Neq => comparison(true, left, right),
        _ => match arithmetic_fold(op, left.expr, right.expr) {
            Some(folded) => folded,
            None => deferred(op, left, right),
        },
    }
}

/// A number with a decimal point, as written, with its sign changed.
pub open spec fn negated_text(text: Seq<char>) -> Seq<char> {
    if text.len() > 0 && text[0] == '-' {
        text.subrange(1, text.len() as int)
    } else {
        seq!['-'] + text
    }
}

/// What a minus sign builds from its operand: the negated literal of an
/// `Int` or a `Float`, a node left for later where 64 bits do not hold the
/// negated `Int`, and an error for any other operand.
pub open spec fn negation(operand: NodeModel) -> Result<ExprModel, ParseErrorModel> {
    match operand.expr {
        ExprModel::Int(i) => if i == i64::MIN {
            Ok(ExprModel::UnaryOp { op: Op::Sub, expr: Box::new(operand) })
        } else {
            Ok(ExprModel::Int((-i) as i64))
        },
        ExprModel::Float(text) => Ok(ExprModel::Float(negated_text(text))),
        _ => Err(ParseErrorModel::ExpectedNumericOperand),
    }
}

/// The absent optional, as a node.
pub open spec fn absent() -> NodeModel {
    NodeModel { id: 0, expr: ExprModel::Option(None) }
}

/// The optional that holds `value`, as the node `id`.
pub open spec fn present(value: NodeModel, id: nat) -> NodeModel {
    NodeModel { id, expr: ExprModel::Option(Some(Box::new(value))) }
}

/// What a conditional builds.
///
/// Without an else branch the conditional yields an optional: the then
/// branch as a present optional (the node `wrap_id`), and the absent
/// optional in place of the else branch. A condition that is a literal truth
/// value selects its branch at once; any other condition gives an `If` node
/// (the node `node_id`).
pub open spec fn conditional(
    condition: NodeModel,
    then_branch: NodeModel,
    else_branch: Option<NodeModel>,
    wrap_id: nat,
    node_id: nat,
) -> NodeModel {
    let when_true = match else_branch {
        Some(_) => then_branch,
        None => present(then_branch, wrap_id),
    };
    let when_false = match else_branch {
        Some(other) => other,
        None => absent(),
    };
    match condition.expr {
        ExprModel::Bool(b) => if b {
            when_true
        } else {
            when_false
        },
        _ => NodeModel {
            id: node_id,
            expr: ExprModel::If {
                condition: Box::new(condition),
                then_branch: Box::new(when_true),
                else_branch: Box::new(when_false),
            },
        },
    }
}

/// The message of the error that `is_bad_primative` gives.
pub open spec fn mismatch_message(left: ExprModel, right: ExprModel) -> Seq<char> {
    "Expect "@ + primitive_name(left) + " while reducing expression, found "@ + primitive_name(
        right,
    )
}

impl Node {
    /// The node `id` for `expr`.
    pub fn new(id: u64, expr: Expr) -> (r: Node)
        ensures
            r@ == (NodeModel { id: id as nat, expr: expr@ }),
    {
        Node { id, expr: Arc::new(expr) }
    }

    /// Another handle to this node.
    pub fn share(&self) -> (r: Node)
        ensures
            r == *self,
    {
        Node { id: self.id, expr: share(&self.expr) }
    }

    /// Whether `self` and `other` are one and the same node.
    pub fn is_same(&self, other: &Node) -> (r: bool)
        ensures
            r == same_node(self@, other@),
    {
        !self.expr.is_literal() && !other.expr.is_literal() && self.id == other.id
    }

    /// The absent optional.
    pub fn absent() -> (r: Node)
        ensures
            r@ == absent(),
    {
        Node::new(0, Expr::Option(None))
    }
}

impl Expr {
    /// The name of the primitive kind of this expression.
    pub fn primative_str(&self) -> (r: &'static str)
        ensures
            r@ == primitive_name(self@),
    {
        match self {
            Expr::Bool(_) => "bool",
            Expr::Uint(_) => "uint",
            Expr::Int(_) => "int",
            Expr::Float(_) => "float",
            Expr::Char(_) => "char",
            Expr::String(_) => "string",
            _ => "Complex Expr",
        }
    }

    /// Whether this expression is a value of a primitive kind.
    pub fn is_primative(&self) -> (r: bool)
        ensures
            r == is_primitive(self@),
    {
        match self {
            Expr::Bool(_) => true,
            Expr::Uint(_) => true,
            Expr::Int(_) => true,
            Expr::Float(_) => true,
            Expr::Char(_) => true,
            Expr::String(_) => true,
            _ => false,
        }
    }

    /// Whether this expression is a literal.
    pub fn is_literal(&self) -> (r: bool)
        ensures
            r == is_literal(self@),
    {
        match self {
            Expr::Option(None) => true,
            _ => self.is_primative(),
        }
    }

    /// Refuses an operation whose right operand is a primitive that does not
    /// go with the left one, and leaves any other for later.
    pub fn is_bad_primative(left: Node, op: Op, right: Node) -> (r: Result<Expr, ParseError>)
        ensures
            outcome(r) == if is_primitive(right@.expr) {
                Err::<ExprModel, ParseErrorModel>(
                    ParseErrorModel::BadExpress(mismatch_message(left@.expr, right@.expr)),
                )
            } else {
                Ok(deferred(op, left@, right@))
            },
    {
        if right.expr.is_primative() {
            let mut message = String::from_str("Expect ");
            message.append(left.expr.primative_str());
            message.append(" while reducing expression, found ");
            message.append(right.expr.primative_str());
            Err(ParseError::BadExpress(message))
        } else {
            Ok(Expr::BinaryOp { left, op, right })
        }
    }

    /// The literal that an arithmetic operator folds the operands to, if it
    /// folds them.
    fn fold_arithmetic(op: Op, left: &Expr, right: &Expr) -> (r: Option<Expr>)
        ensures
            match r {
                Some(folded) => arithmetic_fold(op, left@, right@) == Some(folded@),
                None => arithmetic_fold(op, left@, right@) is None,
            },
    {
        match (left, right) {
            (Expr::Int(a), Expr::Int(b)) => {
                let v = match op {
                    Op::Add => a.checked_add(*b),
                    Op::Sub => a.checked_sub(*b),
                    Op::Mul => a.checked_mul(*b),
                    Op::Div => a.checked_div(*b),
                    Op::Mod => a.checked_rem(*b),
                    _ => None,
                };
                match v {
                    Some(v) => Some(Expr::Int(v)),
                    None => None,
                }
            },
            (Expr::Uint(a), Expr::Uint(b)) => {
                let v = match op {
                    Op::Add => a.checked_add(*b),
                    Op::Sub => a.checked_sub(*b),
                    Op::Mul => a.checked_mul(*b),
                    Op::Div => a.checked_div(*b),
                    Op::Mod => a.checked_rem(*b),
                    _ => None,
                };
                match v {
                    Some(v) => Some(Expr::Uint(v)),
                    None => None,
                }
            },
            (Expr::String(a), Expr::String(b)) => {
                match op {
                    Op::Add => Some(Expr::String(joined(a, b))),
                    _ => None,
                }
            },
            _ => None,
        }
    }

    /// Whether two literals of one kind are equal, where their values decide
    /// it.
    fn compare_values(left: &Expr, right: &Expr) -> (r: Option<bool>)
        ensures
            r == value_equality(left@, right@),
    {
        match (left, right) {
            (Expr::Bool(a), Expr::Bool(b)) => Some(*a == *b),
            (Expr::Int(a), Expr::Int(b)) => Some(*a == *b),
            (Expr::Uint(a), Expr::Uint(b)) => Some(*a == *b),
            (Expr::Char(a), Expr::Char(b)) => Some(*a == *b),
            (Expr::String(a), Expr::String(b)) => Some(*a == *b),
            (Expr::Option(None), Expr::Option(None)) => Some(true),
            _ => None,
        }
    }

    /// Whether this expression is a number or a truth value.
    fn is_numeric_or_bool(&self) -> (r: bool)
        ensures
            r == is_numeric_or_bool(self@),
    {
        match self {
            Expr::Bool(_) => true,
            Expr::Uint(_) => true,
            Expr::Int(_) => true,
            Expr::Float(_) => true,
            _ => false,
        }
    }

    /// Builds a comparison, for equality (`negate` is false) or inequality.
    fn compare(negate: bool, left: Node, right: Node) -> (r: Expr)
        ensures
            r@ == comparison(negate, left@, right@),
    {
        match Expr::compare_values(&left.expr, &right.expr) {
            Some(equal) => Expr::Bool(equal != negate),
            None => {
                if left.expr.is_numeric_or_bool() {
                    let op = if negate {
                        Op::Neq
                    } else {
                        Op::Eq
                    };
                    Expr::BinaryOp { left, op, right }
                } else {
                    Expr::Bool(left.is_same(&right) != negate)
                }
            },
        }
    }

    /// Builds the application of a binary operator, folding it where the
    /// operands allow.
    pub fn binary(op: Op, left: Node, right: Node) -> (r: Expr)
        ensures
            r@ == binary(op, left@, right@),
    {
        match op {
            Op::Eq => Expr::compare(false, left, right),
            Op::Neq => Expr::compare(true, left, right),
            _ => {
                match Expr::fold_arithmetic(op, &left.expr, &right.expr) {
                    Some(folded) => folded,
                    None => Expr::BinaryOp { left, op, right },
                }
            },
        }
    }

    /// `left != right`.
    pub fn neq(left: Node, right: Node) -> (r: Result<Expr, ParseError>)
        ensures
            outcome(r) == Ok::<ExprModel, ParseErrorModel>(comparison(true, left@, right@)),
    {
        Ok(Expr::binary(Op::Neq, left, right))
    }

    /// `left == right`.
    pub fn eq(left: Node, right: Node) -> (r: Result<Expr, ParseError>)
        ensures
            outcome(r) == Ok::<ExprModel, ParseErrorModel>(comparison(false, left@, right@)),
    {
        Ok(Expr::binary(Op::Eq, left, right))
    }

    /// `left % right`.
    pub fn modd(left: Node, right: Node) -> (r: Result<Expr, ParseError>)
        ensures
            outcome(r) == Ok::<ExprModel, ParseErrorModel>(binary(Op::Mod, left@, right@)),
    {
        Ok(Expr::binary(Op::Mod, left, right))
    }

    /// `left / right`.
    pub fn div(left: Node, right: Node) -> (r: Result<Expr, ParseError>)
        ensures
            outcome(r) == Ok::<ExprModel, ParseErrorModel>(binary(Op::Div, left@, right@)),
    {
        Ok(Expr::binary(Op::Div, left, right))
    }

    /// `left * right`.
    pub fn mult(left: Node, right: Node) -> (r: Result<Expr, ParseError>)
        ensures
            outcome(r) == Ok::<ExprModel, ParseErrorModel>(binary(Op::Mul, left@, right@)),
    {
        Ok(Expr::binary(Op::Mul, left, right))
    }

    /// `left - right`.
    pub fn sub(left: Node, right: Node) -> (r: Result<Expr, ParseError>)
        ensures
            outcome(r) == Ok::<ExprModel, ParseErrorModel>(binary(Op::Sub, left@, right@)),
    {
        Ok(Expr::binary(Op::Sub, left, right))
    }

    /// `left + right`.
    pub fn add(left: Node, right: Node) -> (r: Result<Expr, ParseError>)
        ensures
            outcome(r) == Ok::<ExprModel, ParseErrorModel>(binary(Op::Add, left@, right@)),
    {
        Ok(Expr::binary(Op::Add, left, right))
    }

    /// `!operand`, which is never folded.
    pub fn not(operand: Node) -> (r: Expr)
        ensures
            r@ == (ExprModel::UnaryOp { op: Op::Not, expr: Box::new(operand@) }),
    {
        Expr::UnaryOp { op: Op::Not, expr: operand }
    }

    /// `-operand`.
    pub fn neg(operand: Node) -> (r: Result<Expr, ParseError>)
        ensures
            outcome(r) == negation(operand@),
    {
        let folded: Option<Expr> = match &*operand.expr {
            Expr::Int(i) => {
                if *i == i64::MIN {
                    None
                } else {
                    Some(Expr::Int(-*i))
                }
            },
            Expr::Float(text) => Some(Expr::Float(negate_text(text))),
            _ => {
                return Err(ParseError::ExpectedNumericOperand);
            },
        };
        match folded {
            Some(e) => Ok(e),
            None => Ok(Expr::UnaryOp { op: Op::Sub, expr: operand }),
        }
    }

    /// Builds a conditional; `wrap_id` and `node_id` are the identities of
    /// the nodes that it may have to make.
    pub fn conditional(
        condition: Node,
        then_branch: Node,
        else_branch: Option<Node>,
        wrap_id: u64,
        node_id: u64,
    ) -> (r: Node)
        ensures
            r@ == conditional(
                condition@,
                then_branch@,
                match else_branch {
                    Some(other) => Some(other@),
                    None => None,
                },
                wrap_id as nat,
                node_id as nat,
            ),
    {
        let (when_true, when_false) = match else_branch {
            Some(other) => (then_branch, other),
            None => (Node::new(wrap_id, Expr::Option(Some(then_branch))), Node::absent()),
        };
        let decided: Option<bool> = match &*condition.expr {
            Expr::Bool(b) => Some(*b),
            _ => None,
        };
        match decided {
            Some(true) => when_true,
            Some(false) => when_false,
            None => Node::new(
                node_id,
                Expr::If { condition, then_branch: when_true, else_branch: when_false },
            ),
        }
    }
}

/// A number with a decimal point, as written, with its sign changed.
pub fn negate_text(text: &String) -> (r: String)
    ensures
        r@ == negated_text(text@),
{
    let chars = chars_of(text.as_str());
    let mut out = String::new();
    let mut i: usize = 0;
    if chars.len() > 0 && chars[0] == '-' {
        i = 1;
        assert(out@ =~= chars@.subrange(1, 1));
    } else {
        push_char(&mut out, '-');
        assert(out@ =~= seq!['-'] + chars@.subrange(0, 0));
    }
    let start = i;
    while i < chars.len()
        invariant
            start <= i <= chars.len(),
            start == 1 ==> out@ == chars@.subrange(1, i as int),
            start == 0 ==> out@ == seq!['-'] + chars@.subrange(0, i as int),
            start <= 1,
        decreases chars.len() - i,
    {
        push_char(&mut out, chars[i]);
        proof {
            if start == 1 {
                assert(out@ =~= chars@.subrange(1, i as int + 1));
            } else {
                assert(out@ =~= seq!['-'] + chars@.subrange(0, i as int + 1));
            }
        }
        i += 1;
    }
    proof {
        assert(chars@.subrange(0, chars@.len() as int) =~= chars@);
    }
    out
}

/// `sig` where `current` is the signature of the placeholder `Generic`, and
/// `current` where it is not.
pub open spec fn concrete_signature(current: u64, sig: u64) -> u64 {
    if current == SIG_GENERIC {
        sig
    } else {
        current
    }
}

/// What specializing an expression to the type of signature `sig` gives: a
/// function with `sig` in the place of each of its signatures that is
/// generic, and an error for what is no function.
pub open spec fn specialized(e: ExprModel, sig: u64) -> Result<ExprModel, ParseErrorModel> {
    match e {
        ExprModel::Function { param_sig, return_sig, block } => Ok(
            ExprModel::Function {
                param_sig: concrete_signature(param_sig, sig),
                return_sig: concrete_signature(return_sig, sig),
                block,
            },
        ),
        _ => Err(ParseErrorModel::BadExpress("only a function can be specialized"@)),
    }
}

impl Expr {
    /// Specializes a generic function to the type of signature `sig`.
    pub fn specialize(&self, sig: u64) -> (r: Result<Expr, ParseError>)
        ensures
            outcome(r) == specialized(self@, sig),
    {
        match self {
            Expr::Function { param_sig, return_sig, block } => Ok(
                Expr::Function {
                    param_sig: if *param_sig == SIG_GENERIC {
                        sig
                    } else {
                        *param_sig
                    },
                    return_sig: if *return_sig == SIG_GENERIC {
                        sig
                    } else {
                        *return_sig
                    },
                    block: block.share(),
                },
            ),
            _ => Err(
                ParseError::BadExpress(String::from_str("only a function can be specialized")),
            ),
        }
    }
}

} // verus!
