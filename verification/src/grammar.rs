//! The grammar of the language, as functions from a token sequence and a
//! state to what is read and the state that reading leaves.
//!
//! Parsing is a single pass: a name is bound, and a type declared, the moment
//! the parser has read its binding, and every later token sees it.
//!
//! ```text
//! program    = statements, end of input
//! block      = "{", statements, "}"
//! statements = [ expression, { ";", expression }, [ ";" ] ]
//! expression = primary, { ".", method }, [ operator, expression ]
//! method     = "as", "(", name, ")" | "pass_to", "(", expression, ")"
//! primary    = "$" | ( "!" | "-" ), expression | literal | type keyword
//!            | name | name, ":", type | "(", expression, ")"
//!            | "|", type, "->", type, "|", block
//!            | "{", [ pair, { ",", pair }, [ "," ] ], "}"
//!            | "if", expression, block, [ "else", block ]
//! pair       = name, ":", expression
//! type       = "generic" | type keyword | "[", type, "]" | name
//!            | "{", { name, ":", type, [ "," | ";" ] }, "}"
//! ```

use crate::expr::{
    absent, binary, conditional, is_literal, negation, same_node, ExprModel, NodeModel,
    ParseErrorModel,
};
use crate::lexer::{Op, TokenModel};
use crate::name_map::with_bound;
use crate::scope::redirected;
use crate::type_def::{signature, TypeModel};
use crate::type_env::TypeEnvModel;
use vstd::prelude::*;

verus! {

/// The identity of the block that is a whole program.
pub const ROOT_ID: u64 = 0xffff_ffff_ffff_ffff;

/// What the parser knows at a point of the token sequence.
pub struct ParseState {
    /// The place of the current token.
    pub pos: int,
    /// The types declared so far.
    pub types: TypeEnvModel,
    /// The names bound so far.
    pub scope: Map<Seq<char>, NodeModel>,
    /// The identity that the next new node gets.
    pub next_id: nat,
}

/// What reading an expression gives: the node or the error, and the state in
/// which reading stopped.
pub type Parsed = (Result<NodeModel, ParseErrorModel>, ParseState);

/// The token at `pos`; past the end of the sequence, `EOF`.
pub open spec fn current(tokens: Seq<TokenModel>, pos: int) -> TokenModel {
    if 0 <= pos < tokens.len() {
        tokens[pos]
    } else {
        TokenModel::EOF
    }
}

/// The error for a token that cannot stand at `pos`, with what was expected
/// there.
pub open spec fn unexpected(tokens: Seq<TokenModel>, pos: int, expected: Seq<char>) -> ParseErrorModel {
    ParseErrorModel::UnexpectedToken(current(tokens, pos), expected)
}

/// The error for reading that has not moved on. Reading always moves on, so
/// this error does not arise; it closes the definitions below.
pub open spec fn stuck(tokens: Seq<TokenModel>, pos: int) -> ParseErrorModel {
    unexpected(tokens, pos, "expected more"@)
}

/// The state `st` at the place `pos`.
pub open spec fn at(st: ParseState, pos: int) -> ParseState {
    ParseState { pos, ..st }
}

/// The node for a new expression, and the state after it was made. A literal
/// needs no identity and gets `0`; any other expression gets the next one.
pub open spec fn wrap(expr: ExprModel, st: ParseState) -> (NodeModel, ParseState) {
    if is_literal(expr) {
        (NodeModel { id: 0, expr }, st)
    } else {
        (NodeModel { id: st.next_id, expr }, ParseState { next_id: st.next_id + 1, ..st })
    }
}

/// A new node for `expr`, as the result of reading.
pub open spec fn made(expr: ExprModel, st: ParseState) -> Parsed {
    let (node, after) = wrap(expr, st);
    (Ok(node), after)
}

/// The primitive type that a type keyword names.
pub open spec fn primitive_type(token: TokenModel) -> Option<TypeModel> {
    match token {
        TokenModel::TNone => Some(TypeModel::NoneType),
        TokenModel::TBool => Some(TypeModel::Bool),
        TokenModel::TInt => Some(TypeModel::Int),
        TokenModel::TUint => Some(TypeModel::Uint),
        TokenModel::TChar => Some(TypeModel::Char),
        TokenModel::TFloat => Some(TypeModel::Float),
        TokenModel::TString => Some(TypeModel::String),
        _ => None,
    }
}

/// The literal that a literal token writes.
pub open spec fn literal(token: TokenModel) -> Option<ExprModel> {
    match token {
        TokenModel::Bool(b) => Some(ExprModel::Bool(b)),
        TokenModel::Int(i) => Some(ExprModel::Int(i)),
        TokenModel::UInt(u) => Some(ExprModel::Uint(u)),
        TokenModel::Char(c) => Some(ExprModel::Char(c)),
        TokenModel::Float(text) => Some(ExprModel::Float(text)),
        TokenModel::String(text) => Some(ExprModel::String(text)),
        TokenModel::TNone => Some(ExprModel::Option(None)),
        _ => None,
    }
}

/// A type expression that starts at `pos`, and the place after it.
///
/// A type is `generic`, a primitive type, an array type `[T]`, a structure
/// type `{ name: T, .. }`, or the name of a declared type. Inside the
/// declaration of `own_name`, that name stands for `Generic`.
pub open spec fn type_expr(
    tokens: Seq<TokenModel>,
    pos: int,
    types: TypeEnvModel,
    own_name: Option<Seq<char>>,
) -> (Result<TypeModel, ParseErrorModel>, int)
    decreases tokens.len() - pos, 1int,
{
    let token = current(tokens, pos);
    match token {
        TokenModel::Generic => (Ok(TypeModel::Generic), pos + 1),
        TokenModel::LBrace => {
            let (inner, end) = type_expr(tokens, pos + 1, types, own_name);
            match inner {
                Err(e) => (Err(e), end),
                Ok(element) => if current(tokens, end) is RBrace {
                    (Ok(TypeModel::Array(Box::new(element))), end + 1)
                } else {
                    (Err(unexpected(tokens, end, "expected `]`"@)), end)
                },
            }
        },
        TokenModel::LBrack => struct_fields(tokens, pos + 1, types, own_name, Seq::empty()),
        TokenModel::Ident(name) => if own_name == Some(name) {
            (Ok(TypeModel::Generic), pos + 1)
        } else {
            match types.resolve(name) {
                Ok(t) => (Ok(t), pos + 1),
                Err(e) => (Err(e), pos),
            }
        },
        _ => match primitive_type(token) {
            Some(t) => (Ok(t), pos + 1),
            None => (Err(unexpected(tokens, pos, "expected a type"@)), pos),
        },
    }
}

/// Whether one of `fields` is named `name`.
pub open spec fn has_field(fields: Seq<TypeModel>, name: Seq<char>) -> bool {
    exists|i: int| 0 <= i < fields.len() && field_name(#[trigger] fields[i]) == Some(name)
}

/// The name of a field of a structure type.
pub open spec fn field_name(field: TypeModel) -> Option<Seq<char>> {
    match field {
        TypeModel::TypeDef { name, .. } => Some(name),
        _ => None,
    }
}

/// The fields of a structure type from `pos` to the closing `}`, after the
/// fields `fields`, and the place after the `}`.
///
/// A field is `name: T`, followed by `,` or `;` unless the `}` follows. No
/// two fields have the same name.
pub open spec fn struct_fields(
    tokens: Seq<TokenModel>,
    pos: int,
    types: TypeEnvModel,
    own_name: Option<Seq<char>>,
    fields: Seq<TypeModel>,
) -> (Result<TypeModel, ParseErrorModel>, int)
    decreases tokens.len() - pos, 0int,
{
    match current(tokens, pos) {
        TokenModel::RBrack => (Ok(TypeModel::Struct(fields)), pos + 1),
        TokenModel::Ident(name) => if has_field(fields, name) {
            (Err(unexpected(tokens, pos, "expected a field name that is not in use"@)), pos)
        } else if !(current(tokens, pos + 1) is Colon) {
            (Err(unexpected(tokens, pos + 1, "expected `:`"@)), pos + 1)
        } else {
            let (inner, end) = type_expr(tokens, pos + 2, types, own_name);
            match inner {
                Err(e) => (Err(e), end),
                Ok(t) => {
                    let field = TypeModel::TypeDef { name, inner: Box::new(t) };
                    let next = current(tokens, end);
                    if !(pos < end <= tokens.len()) {
                        (Err(stuck(tokens, end)), end)
                    } else if next is Comma || next is SemiCol {
                        struct_fields(tokens, end + 1, types, own_name, fields.push(field))
                    } else if next is RBrack {
                        struct_fields(tokens, end, types, own_name, fields.push(field))
                    } else {
                        (Err(unexpected(tokens, end, "expected `,`, `;` or `}`"@)), end)
                    }
                },
            }
        },
        _ => (Err(unexpected(tokens, pos, "expected a field name or `}`"@)), pos),
    }
}

/// Whether `op` stands between two operands.
pub open spec fn is_binary(op: Op) -> bool {
    op != Op::Not
}

/// An expression that starts at the current token.
///
/// An expression is a primary expression, then any number of method
/// applications, then possibly a binary operator and, to its right, an
/// expression. The operators have no precedence among them: the right operand
/// of an operator is all that follows it.
pub open spec fn expression(tokens: Seq<TokenModel>, st: ParseState) -> Parsed
    decreases tokens.len() - st.pos, 3int,
{
    let (first, st1) = primary(tokens, st);
    match first {
        Err(e) => (Err(e), st1),
        Ok(subject) => if !(st.pos < st1.pos <= tokens.len()) {
            (Err(stuck(tokens, st1.pos)), st1)
        } else {
            continuation(tokens, st1, subject)
        },
    }
}

/// What follows a primary expression `subject`: method applications, then
/// possibly a binary operator with its right operand.
///
/// `.as(name)` binds `name` to the subject and leaves the subject as it is.
/// `.pass_to(e)` replaces the subject by `e`, or by what `e` is bound to
/// where `e` is an identifier. Any other method is an error.
pub open spec fn continuation(tokens: Seq<TokenModel>, st: ParseState, subject: NodeModel) -> Parsed
    decreases tokens.len() - st.pos, 1int,
{
    let pos = st.pos;
    match current(tokens, pos) {
        TokenModel::Period => match current(tokens, pos + 1) {
            TokenModel::Ident(method) => if !(current(tokens, pos + 2) is LParen) {
                (Err(unexpected(tokens, pos + 2, "expected `(`"@)), at(st, pos + 2))
            } else if method == "as"@ {
                match current(tokens, pos + 3) {
                    TokenModel::Ident(name) => if current(tokens, pos + 4) is RParen {
                        continuation(
                            tokens,
                            ParseState { pos: pos + 5, scope: st.scope.insert(name, subject), ..st },
                            subject,
                        )
                    } else {
                        (Err(unexpected(tokens, pos + 4, "expected `)`"@)), at(st, pos + 4))
                    },
                    _ => (Err(unexpected(tokens, pos + 3, "expected a name"@)), at(st, pos + 3)),
                }
            } else if method == "pass_to"@ {
                let (argument, st1) = expression(tokens, at(st, pos + 3));
                match argument {
                    Err(e) => (Err(e), st1),
                    Ok(target) => if !(pos < st1.pos <= tokens.len()) {
                        (Err(stuck(tokens, st1.pos)), st1)
                    } else if current(tokens, st1.pos) is RParen {
                        continuation(tokens, at(st1, st1.pos + 1), redirected(st1.scope, target))
                    } else {
                        (Err(unexpected(tokens, st1.pos, "expected `)`"@)), st1)
                    },
                }
            } else {
                (
                    Err(unexpected(tokens, pos + 1, "expected the method `as` or `pass_to`"@)),
                    at(st, pos + 1),
                )
            },
            _ => (Err(unexpected(tokens, pos + 1, "expected a method name"@)), at(st, pos + 1)),
        },
        TokenModel::Op(op) => if is_binary(op) {
            let (operand, st1) = expression(tokens, at(st, pos + 1));
            match operand {
                Err(e) => (Err(e), st1),
                Ok(right) => made(binary(op, subject, right), st1),
            }
        } else {
            (Ok(subject), st)
        },
        _ => (Ok(subject), st),
    }
}

/// A primary expression that starts at the current token: the argument
/// marker, an operator with its operand, a literal, a type keyword, an
/// identifier or a type declaration, an expression in parentheses, a function
/// literal, a structure literal, or a conditional.
///
/// A `!` or a `-` applies to the whole expression that follows it.
pub open spec fn primary(tokens: Seq<TokenModel>, st: ParseState) -> Parsed
    decreases tokens.len() - st.pos, 2int,
{
    let pos = st.pos;
    let token = current(tokens, pos);
    match token {
        TokenModel::Param => made(ExprModel::Param, at(st, pos + 1)),
        TokenModel::Op(op) => if op == Op::Not || op == Op::Sub {
            let (operand, st1) = expression(tokens, at(st, pos + 1));
            match operand {
                Err(e) => (Err(e), st1),
                Ok(inner) => if op == Op::Not {
                    made(ExprModel::UnaryOp { op: Op::Not, expr: Box::new(inner) }, st1)
                } else {
                    match negation(inner) {
                        Ok(negated) => made(negated, st1),
                        Err(e) => (Err(e), st1),
                    }
                },
            }
        } else {
            (Err(unexpected(tokens, pos, "expected an expression"@)), st)
        },
        TokenModel::Ident(name) => if current(tokens, pos + 1) is Colon {
            let (declared, end) = type_expr(tokens, pos + 2, st.types, Some(name));
            match declared {
                Err(e) => (Err(e), at(st, end)),
                Ok(t) => {
                    let (canonical, types) = st.types.declare(name, t);
                    match canonical {
                        Err(e) => (Err(e), at(st, end)),
                        Ok(shape) => made(
                            ExprModel::Type(TypeModel::TypeDef { name, inner: Box::new(shape) }),
                            ParseState { pos: end, types, ..st },
                        ),
                    }
                },
            }
        } else if st.scope.contains_key(name) {
            (Ok(st.scope[name]), at(st, pos + 1))
        } else {
            made(ExprModel::Identifier(name), at(st, pos + 1))
        },
        TokenModel::LParen => {
            let (inner, st1) = expression(tokens, at(st, pos + 1));
            match inner {
                Err(e) => (Err(e), st1),
                Ok(node) => if current(tokens, st1.pos) is RParen {
                    (Ok(node), at(st1, st1.pos + 1))
                } else {
                    (Err(unexpected(tokens, st1.pos, "expected `)`"@)), st1)
                },
            }
        },
        TokenModel::FnTypes => function_literal(tokens, at(st, pos + 1)),
        TokenModel::LBrack => struct_literal(tokens, at(st, pos + 1), Seq::empty()),
        TokenModel::If => condition(tokens, at(st, pos + 1)),
        _ => match literal(token) {
            Some(value) => made(value, at(st, pos + 1)),
            None => match primitive_type(token) {
                Some(t) => made(ExprModel::Type(t), at(st, pos + 1)),
                None => (Err(unexpected(tokens, pos, "expected an expression"@)), st),
            },
        },
    }
}

/// A function literal after its opening `|`: a parameter type, `->`, a return
/// type, `|`, and a block for the body.
pub open spec fn function_literal(tokens: Seq<TokenModel>, st: ParseState) -> Parsed
    decreases tokens.len() - st.pos, 7int,
{
    let (param, arrow) = type_expr(tokens, st.pos, st.types, None);
    match param {
        Err(e) => (Err(e), at(st, arrow)),
        Ok(param_type) => if !(current(tokens, arrow) is Arrow) {
            (Err(unexpected(tokens, arrow, "expected `->`"@)), at(st, arrow))
        } else {
            let (ret, bar) = type_expr(tokens, arrow + 1, st.types, None);
            match ret {
                Err(e) => (Err(e), at(st, bar)),
                Ok(return_type) => if !(current(tokens, bar) is FnTypes) {
                    (Err(unexpected(tokens, bar, "expected `|`"@)), at(st, bar))
                } else if !(st.pos <= bar) {
                    (Err(stuck(tokens, bar)), at(st, bar))
                } else {
                    let (body, st1) = block(tokens, at(st, bar + 1));
                    match body {
                        Err(e) => (Err(e), st1),
                        Ok(node) => made(
                            ExprModel::Function {
                                param_sig: signature(param_type),
                                return_sig: signature(return_type),
                                block: Box::new(node),
                            },
                            st1,
                        ),
                    }
                },
            }
        },
    }
}

/// A structure literal after its opening `{` and after the pairs `pairs`:
/// pairs `name: expression`, each followed by `,` unless the `}` follows. A
/// name that is given twice keeps its place and takes the later value.
pub open spec fn struct_literal(
    tokens: Seq<TokenModel>,
    st: ParseState,
    pairs: Seq<(Seq<char>, NodeModel)>,
) -> Parsed
    decreases tokens.len() - st.pos, 7int,
{
    let pos = st.pos;
    match current(tokens, pos) {
        TokenModel::RBrack => made(ExprModel::Struct(pairs), at(st, pos + 1)),
        TokenModel::Ident(name) => if !(current(tokens, pos + 1) is Colon) {
            (Err(unexpected(tokens, pos + 1, "expected `:`"@)), at(st, pos + 1))
        } else {
            let (value, st1) = expression(tokens, at(st, pos + 2));
            match value {
                Err(e) => (Err(e), st1),
                Ok(node) => {
                    let next = current(tokens, st1.pos);
                    if !(pos < st1.pos <= tokens.len()) {
                        (Err(stuck(tokens, st1.pos)), st1)
                    } else if next is Comma {
                        struct_literal(tokens, at(st1, st1.pos + 1), with_bound(pairs, name, node))
                    } else if next is RBrack {
                        struct_literal(tokens, st1, with_bound(pairs, name, node))
                    } else {
                        (Err(unexpected(tokens, st1.pos, "expected `,` or `}`"@)), st1)
                    }
                },
            }
        },
        _ => (Err(unexpected(tokens, pos, "expected a field name or `}`"@)), st),
    }
}

/// The else branch of a conditional, if the conditional has one: `else` and
/// a block.
pub open spec fn else_branch(tokens: Seq<TokenModel>, st: ParseState) -> (
    Result<Option<NodeModel>, ParseErrorModel>,
    ParseState,
)
    decreases tokens.len() - st.pos, 7int,
{
    if current(tokens, st.pos) is Else {
        let (else_part, st1) = block(tokens, at(st, st.pos + 1));
        match else_part {
            Err(e) => (Err(e), st1),
            Ok(else_node) => (Ok(Some(else_node)), st1),
        }
    } else {
        (Ok(None), st)
    }
}

/// A conditional after its `if`: a condition, a block, and possibly `else`
/// and a second block. The result is built as `conditional` says; two
/// identities are set aside for the nodes that it may make.
pub open spec fn condition(tokens: Seq<TokenModel>, st: ParseState) -> Parsed
    decreases tokens.len() - st.pos, 8int,
{
    let (test, st1) = expression(tokens, st);
    match test {
        Err(e) => (Err(e), st1),
        Ok(test_node) => if !(st.pos < st1.pos <= tokens.len()) {
            (Err(stuck(tokens, st1.pos)), st1)
        } else {
            let (then_part, st2) = block(tokens, st1);
            match then_part {
                Err(e) => (Err(e), st2),
                Ok(then_node) => if !(st1.pos < st2.pos <= tokens.len()) {
                    (Err(stuck(tokens, st2.pos)), st2)
                } else {
                    let (other, st3) = else_branch(tokens, st2);
                    match other {
                        Err(e) => (Err(e), st3),
                        Ok(else_node) => (
                            Ok(
                                conditional(
                                    test_node,
                                    then_node,
                                    else_node,
                                    st3.next_id,
                                    st3.next_id + 1,
                                ),
                            ),
                            ParseState { next_id: st3.next_id + 2, ..st3 },
                        ),
                    }
                },
            }
        },
    }
}

/// A block in braces that starts at the current token.
pub open spec fn block(tokens: Seq<TokenModel>, st: ParseState) -> Parsed
    decreases tokens.len() - st.pos, 6int,
{
    if !(current(tokens, st.pos) is LBrack) {
        (Err(unexpected(tokens, st.pos, "expected `{`"@)), st)
    } else {
        let (body, st1) = statements(tokens, at(st, st.pos + 1), Seq::empty());
        match body {
            Err(e) => (Err(e), st1),
            Ok(items) => if current(tokens, st1.pos) is RBrack {
                made(ExprModel::Block(items), at(st1, st1.pos + 1))
            } else {
                (Err(unexpected(tokens, st1.pos, "expected `}`"@)), st1)
            },
        }
    }
}

/// A whole program: statements up to the end of the input.
pub open spec fn program(tokens: Seq<TokenModel>, st: ParseState) -> Parsed
    decreases tokens.len() - st.pos, 6int,
{
    let (body, st1) = statements(tokens, st, Seq::empty());
    match body {
        Err(e) => (Err(e), st1),
        Ok(items) => if current(tokens, st1.pos) is EOF {
            (Ok(NodeModel { id: ROOT_ID as nat, expr: ExprModel::Block(items) }), st1)
        } else {
            (Err(unexpected(tokens, st1.pos, "expected the end of the input"@)), st1)
        },
    }
}

/// The statements of a block after the statements `items`, up to a `}` or
/// the end of the input: expressions, each followed by `;` unless the block
/// ends after it.
pub open spec fn statements(tokens: Seq<TokenModel>, st: ParseState, items: Seq<NodeModel>) -> (
    Result<Seq<NodeModel>, ParseErrorModel>,
    ParseState,
)
    decreases tokens.len() - st.pos, 5int,
{
    let token = current(tokens, st.pos);
    if token is EOF || token is RBrack {
        (Ok(items), st)
    } else {
        let (item, st1) = expression(tokens, st);
        match item {
            Err(e) => (Err(e), st1),
            Ok(node) => {
                let next = current(tokens, st1.pos);
                if !(st.pos < st1.pos <= tokens.len()) {
                    (Err(stuck(tokens, st1.pos)), st1)
                } else if next is SemiCol {
                    statements(tokens, at(st1, st1.pos + 1), items.push(node))
                } else if next is EOF || next is RBrack {
                    (Ok(items.push(node)), st1)
                } else {
                    (Err(unexpected(tokens, st1.pos, "expected `;` or the end of the block"@)), st1)
                }
            },
        }
    }
}

/// A statement at the top of a program, with the `;` that ends it.
pub open spec fn top_level(tokens: Seq<TokenModel>, st: ParseState) -> Parsed {
    let (item, st1) = expression(tokens, st);
    match item {
        Err(e) => (Err(e), st1),
        Ok(node) => if current(tokens, st1.pos) is SemiCol {
            (Ok(node), at(st1, st1.pos + 1))
        } else {
            (Err(unexpected(tokens, st1.pos, "expected `;`"@)), st1)
        },
    }
}

/// Two nodes that are made one after the other are not the same node: no
/// identity is given out twice.
pub proof fn lemma_nodes_made_apart_differ(
    first: ExprModel,
    st: ParseState,
    second: ExprModel,
    later: ParseState,
)
    requires
        wrap(first, st).1.next_id <= later.next_id,
    ensures
        !same_node(wrap(first, st).0, wrap(second, later).0),
{
}

/// A name that is not bound, and that no `:` follows, is read as a bare
/// identifier: reading it is no error, it binds nothing, and it declares
/// nothing.
pub proof fn lemma_unbound_name_stays_identifier(
    tokens: Seq<TokenModel>,
    st: ParseState,
    name: Seq<char>,
)
    requires
        current(tokens, st.pos) == TokenModel::Ident(name),
        !(current(tokens, st.pos + 1) is Colon),
        !st.scope.contains_key(name),
    ensures
        primary(tokens, st) == (
            Ok::<NodeModel, ParseErrorModel>(
                NodeModel { id: st.next_id, expr: ExprModel::Identifier(name) },
            ),
            ParseState { pos: st.pos + 1, next_id: st.next_id + 1, ..st },
        ),
{
}

/// A name that is bound, and that no `:` follows, is read as the very node
/// that it is bound to.
pub proof fn lemma_bound_name_is_its_binding(
    tokens: Seq<TokenModel>,
    st: ParseState,
    name: Seq<char>,
)
    requires
        current(tokens, st.pos) == TokenModel::Ident(name),
        !(current(tokens, st.pos + 1) is Colon),
        st.scope.contains_key(name),
    ensures
        primary(tokens, st) == (
            Ok::<NodeModel, ParseErrorModel>(st.scope[name]),
            at(st, st.pos + 1),
        ),
{
}

/// A conditional whose condition is a literal truth value leaves no `If`
/// node: it is the branch that the condition selects. Without an else
/// branch, `true` gives the then branch as a present optional and `false`
/// the absent optional.
pub proof fn lemma_literal_condition_selects(
    decided: bool,
    id: nat,
    then_branch: NodeModel,
    else_branch: Option<NodeModel>,
    wrap_id: nat,
    node_id: nat,
)
    ensures
        ({
            let test = NodeModel { id, expr: ExprModel::Bool(decided) };
            let built = conditional(test, then_branch, else_branch, wrap_id, node_id);
            &&& decided && else_branch is None ==> built == crate::expr::present(
                then_branch,
                wrap_id,
            )
            &&& !decided && else_branch is None ==> built == absent()
            &&& decided && else_branch is Some ==> built == then_branch
            &&& !decided && else_branch is Some ==> built == else_branch->0
        }),
{
}

/// `.as(name)` binds `name` to the subject for all that is read after it:
/// what follows the closing `)` is read in the scope that holds the binding,
/// with the subject unchanged.
pub proof fn lemma_as_binds_for_what_follows(
    tokens: Seq<TokenModel>,
    st: ParseState,
    subject: NodeModel,
    name: Seq<char>,
)
    requires
        current(tokens, st.pos) is Period,
        current(tokens, st.pos + 1) == TokenModel::Ident("as"@),
        current(tokens, st.pos + 2) is LParen,
        current(tokens, st.pos + 3) == TokenModel::Ident(name),
        current(tokens, st.pos + 4) is RParen,
    ensures
        continuation(tokens, st, subject) == continuation(
            tokens,
            ParseState { pos: st.pos + 5, scope: st.scope.insert(name, subject), ..st },
            subject,
        ),
{
}

/// Reading a type moves on: a type that was read ends after the place where
/// it started, within the tokens.
pub proof fn lemma_type_is_orderly(
    tokens: Seq<TokenModel>,
    pos: int,
    types: TypeEnvModel,
    own_name: Option<Seq<char>>,
)
    requires
        0 <= pos,
    ensures
        type_expr(tokens, pos, types, own_name).0 is Ok ==> pos < type_expr(
            tokens,
            pos,
            types,
            own_name,
        ).1 <= tokens.len(),
    decreases tokens.len() - pos, 1int,
{
    match current(tokens, pos) {
        TokenModel::LBrace => {
            lemma_type_is_orderly(tokens, pos + 1, types, own_name);
        },
        TokenModel::LBrack => {
            lemma_fields_are_orderly(tokens, pos + 1, types, own_name, Seq::empty());
        },
        _ => {},
    }
}

/// Reading the fields of a structure type moves on.
pub proof fn lemma_fields_are_orderly(
    tokens: Seq<TokenModel>,
    pos: int,
    types: TypeEnvModel,
    own_name: Option<Seq<char>>,
    fields: Seq<TypeModel>,
)
    requires
        0 <= pos,
    ensures
        struct_fields(tokens, pos, types, own_name, fields).0 is Ok ==> pos < struct_fields(
            tokens,
            pos,
            types,
            own_name,
            fields,
        ).1 <= tokens.len(),
    decreases tokens.len() - pos, 0int,
{
    match current(tokens, pos) {
        TokenModel::Ident(name) => {
            if !has_field(fields, name) && current(tokens, pos + 1) is Colon {
                lemma_type_is_orderly(tokens, pos + 2, types, own_name);
                let (inner, end) = type_expr(tokens, pos + 2, types, own_name);
                match inner {
                    Ok(t) => {
                        let field = TypeModel::TypeDef { name, inner: Box::new(t) };
                        let next = current(tokens, end);
                        if next is Comma || next is SemiCol {
                            lemma_fields_are_orderly(
                                tokens,
                                end + 1,
                                types,
                                own_name,
                                fields.push(field),
                            );
                        } else if next is RBrack {
                            lemma_fields_are_orderly(
                                tokens,
                                end,
                                types,
                                own_name,
                                fields.push(field),
                            );
                        }
                    },
                    Err(_) => {},
                }
            }
        },
        _ => {},
    }
}

/// The state `after` holds all that `before` holds: every name that was
/// bound is bound, every type that was declared is declared as what it was,
/// every signature keeps its canonical type, a consistent type environment
/// stays consistent, and no identity is given out again.
pub open spec fn extends(before: ParseState, after: ParseState) -> bool {
    &&& forall|name: Seq<char>| #[trigger]
        before.scope.contains_key(name) ==> after.scope.contains_key(name)
    &&& forall|name: Seq<char>| #[trigger]
        before.types.names.contains_key(name) ==> after.types.names.contains_key(name)
            && after.types.names[name] == before.types.names[name]
    &&& forall|sig: u64| #[trigger]
        before.types.shapes.contains_key(sig) ==> after.types.shapes.contains_key(sig)
            && after.types.shapes[sig] == before.types.shapes[sig]
    &&& before.types.well_formed() ==> after.types.well_formed()
    &&& before.next_id <= after.next_id
}

/// A state that holds all that a second state holds, which holds all that a
/// third state holds, holds all that the third state holds.
pub proof fn lemma_extends_is_transitive(a: ParseState, b: ParseState, c: ParseState)
    requires
        extends(a, b),
        extends(b, c),
    ensures
        extends(a, c),
{
    assert forall|name: Seq<char>| #[trigger] a.scope.contains_key(name) implies c.scope.contains_key(
        name,
    ) by {
        assert(b.scope.contains_key(name));
    }
    assert forall|name: Seq<char>| #[trigger]
        a.types.names.contains_key(name) implies c.types.names.contains_key(name)
        && c.types.names[name] == a.types.names[name] by {
        assert(b.types.names.contains_key(name));
    }
    assert forall|sig: u64| #[trigger]
        a.types.shapes.contains_key(sig) implies c.types.shapes.contains_key(sig)
        && c.types.shapes[sig] == a.types.shapes[sig] by {
        assert(b.types.shapes.contains_key(sig));
    }
}

/// What holds of all reading, whether it succeeds or fails: the state in
/// which it stops holds all that the state in which it started held.
pub open spec fn orderly<T>(
    before: ParseState,
    read: (Result<T, ParseErrorModel>, ParseState),
) -> bool {
    extends(before, read.1)
}

/// How far reading has moved: from `before` to a place after it, within the
/// tokens.
pub open spec fn advanced(tokens: Seq<TokenModel>, before: ParseState, read: Parsed) -> bool {
    read.0 is Ok ==> before.pos < read.1.pos <= tokens.len()
}

/// Reading an expression is orderly, and it moves on: an expression that was
/// read ends after the place where it started, within the tokens.
pub proof fn lemma_expression_is_orderly(tokens: Seq<TokenModel>, st: ParseState)
    requires
        0 <= st.pos,
    ensures
        advanced(tokens, st, expression(tokens, st)),
        orderly(st, expression(tokens, st)),
    decreases tokens.len() - st.pos, 3int,
{
    lemma_primary_is_orderly(tokens, st);
    let (first, st1) = primary(tokens, st);
    match first {
        Ok(subject) => {
            lemma_continuation_is_orderly(tokens, st1, subject);
        },
        Err(_) => {},
    }
}

/// What follows a primary expression is orderly, and it does not move back.
pub proof fn lemma_continuation_is_orderly(
    tokens: Seq<TokenModel>,
    st: ParseState,
    subject: NodeModel,
)
    requires
        0 <= st.pos <= tokens.len(),
    ensures
        continuation(tokens, st, subject).0 is Ok ==> st.pos <= continuation(
            tokens,
            st,
            subject,
        ).1.pos <= tokens.len(),
        orderly(st, continuation(tokens, st, subject)),
    decreases tokens.len() - st.pos, 1int,
{
    let pos = st.pos;
    match current(tokens, pos) {
        TokenModel::Period => match current(tokens, pos + 1) {
            TokenModel::Ident(method) => {
                if current(tokens, pos + 2) is LParen {
                    if method == "as"@ {
                        match current(tokens, pos + 3) {
                            TokenModel::Ident(name) => {
                                if current(tokens, pos + 4) is RParen {
                                    let bound = ParseState {
                                        pos: pos + 5,
                                        scope: st.scope.insert(name, subject),
                                        ..st
                                    };
                                    lemma_continuation_is_orderly(tokens, bound, subject);
                                    lemma_extends_is_transitive(
                                        st,
                                        bound,
                                        continuation(tokens, bound, subject).1,
                                    );
                                }
                            },
                            _ => {},
                        }
                    } else if method == "pass_to"@ {
                        lemma_expression_is_orderly(tokens, at(st, pos + 3));
                        let (argument, st1) = expression(tokens, at(st, pos + 3));
                        match argument {
                            Ok(target) => {
                                if current(tokens, st1.pos) is RParen {
                                    let next = at(st1, st1.pos + 1);
                                    let moved = redirected(st1.scope, target);
                                    lemma_continuation_is_orderly(tokens, next, moved);
                                    lemma_extends_is_transitive(
                                        st,
                                        next,
                                        continuation(tokens, next, moved).1,
                                    );
                                }
                            },
                            Err(_) => {},
                        }
                    }
                }
            },
            _ => {},
        },
        TokenModel::Op(op) => {
            if is_binary(op) {
                lemma_expression_is_orderly(tokens, at(st, pos + 1));
            }
        },
        _ => {},
    }
}

/// Reading a primary expression is orderly, and it moves on.
pub proof fn lemma_primary_is_orderly(tokens: Seq<TokenModel>, st: ParseState)
    requires
        0 <= st.pos,
    ensures
        advanced(tokens, st, primary(tokens, st)),
        orderly(st, primary(tokens, st)),
    decreases tokens.len() - st.pos, 2int,
{
    let pos = st.pos;
    match current(tokens, pos) {
        TokenModel::Op(op) => {
            if op == Op::Not || op == Op::Sub {
                lemma_expression_is_orderly(tokens, at(st, pos + 1));
            }
        },
        TokenModel::Ident(name) => {
            if current(tokens, pos + 1) is Colon {
                lemma_type_is_orderly(tokens, pos + 2, st.types, Some(name));
                let (declared, end) = type_expr(tokens, pos + 2, st.types, Some(name));
                match declared {
                    Ok(t) => {
                        crate::type_env::lemma_declare_keeps_what_is_declared(st.types, name, t);
                        if st.types.well_formed() {
                            crate::type_env::lemma_declare_keeps_well_formed(st.types, name, t);
                        }
                    },
                    Err(_) => {},
                }
            }
        },
        TokenModel::LParen => {
            lemma_expression_is_orderly(tokens, at(st, pos + 1));
        },
        TokenModel::FnTypes => {
            lemma_function_literal_is_orderly(tokens, at(st, pos + 1));
        },
        TokenModel::LBrack => {
            lemma_struct_literal_is_orderly(tokens, at(st, pos + 1), Seq::empty());
        },
        TokenModel::If => {
            lemma_condition_is_orderly(tokens, at(st, pos + 1));
        },
        _ => {},
    }
}

/// Reading a function literal is orderly, and it moves on.
pub proof fn lemma_function_literal_is_orderly(tokens: Seq<TokenModel>, st: ParseState)
    requires
        0 <= st.pos,
    ensures
        advanced(tokens, st, function_literal(tokens, st)),
        orderly(st, function_literal(tokens, st)),
    decreases tokens.len() - st.pos, 7int,
{
    lemma_type_is_orderly(tokens, st.pos, st.types, None);
    let (param, arrow) = type_expr(tokens, st.pos, st.types, None);
    if param is Ok && current(tokens, arrow) is Arrow {
        lemma_type_is_orderly(tokens, arrow + 1, st.types, None);
        let (ret, bar) = type_expr(tokens, arrow + 1, st.types, None);
        if ret is Ok && current(tokens, bar) is FnTypes {
            lemma_block_is_orderly(tokens, at(st, bar + 1));
        }
    }
}

/// Reading a structure literal is orderly, and it moves on.
pub proof fn lemma_struct_literal_is_orderly(
    tokens: Seq<TokenModel>,
    st: ParseState,
    pairs: Seq<(Seq<char>, NodeModel)>,
)
    requires
        0 <= st.pos,
    ensures
        advanced(tokens, st, struct_literal(tokens, st, pairs)),
        orderly(st, struct_literal(tokens, st, pairs)),
    decreases tokens.len() - st.pos, 7int,
{
    let pos = st.pos;
    match current(tokens, pos) {
        TokenModel::Ident(name) => {
            if current(tokens, pos + 1) is Colon {
                lemma_expression_is_orderly(tokens, at(st, pos + 2));
                let (value, st1) = expression(tokens, at(st, pos + 2));
                match value {
                    Ok(node) => {
                        let next = current(tokens, st1.pos);
                        if next is Comma {
                            lemma_struct_literal_is_orderly(
                                tokens,
                                at(st1, st1.pos + 1),
                                with_bound(pairs, name, node),
                            );
                        } else if next is RBrack {
                            lemma_struct_literal_is_orderly(
                                tokens,
                                st1,
                                with_bound(pairs, name, node),
                            );
                        }
                    },
                    Err(_) => {},
                }
            }
        },
        _ => {},
    }
}

/// Reading a conditional is orderly, and it moves on.
pub proof fn lemma_condition_is_orderly(tokens: Seq<TokenModel>, st: ParseState)
    requires
        0 <= st.pos,
    ensures
        advanced(tokens, st, condition(tokens, st)),
        orderly(st, condition(tokens, st)),
    decreases tokens.len() - st.pos, 8int,
{
    lemma_expression_is_orderly(tokens, st);
    let (test, st1) = expression(tokens, st);
    if test is Ok {
        lemma_block_is_orderly(tokens, st1);
        let (then_part, st2) = block(tokens, st1);
        if then_part is Ok && current(tokens, st2.pos) is Else {
            lemma_block_is_orderly(tokens, at(st2, st2.pos + 1));
        }
    }
}

/// Reading a block in braces is orderly, and it moves on.
pub proof fn lemma_block_is_orderly(tokens: Seq<TokenModel>, st: ParseState)
    requires
        0 <= st.pos,
    ensures
        advanced(tokens, st, block(tokens, st)),
        orderly(st, block(tokens, st)),
    decreases tokens.len() - st.pos, 6int,
{
    if current(tokens, st.pos) is LBrack {
        lemma_statements_are_orderly(tokens, at(st, st.pos + 1), Seq::empty());
    }
}

/// Reading statements is orderly, and it does not move back.
pub proof fn lemma_statements_are_orderly(
    tokens: Seq<TokenModel>,
    st: ParseState,
    items: Seq<NodeModel>,
)
    requires
        0 <= st.pos <= tokens.len(),
    ensures
        statements(tokens, st, items).0 is Ok ==> st.pos <= statements(
            tokens,
            st,
            items,
        ).1.pos <= tokens.len(),
        orderly(st, statements(tokens, st, items)),
    decreases tokens.len() - st.pos, 5int,
{
    let token = current(tokens, st.pos);
    if !(token is EOF || token is RBrack) {
        lemma_expression_is_orderly(tokens, st);
        let (item, st1) = expression(tokens, st);
        match item {
            Ok(node) => {
                if current(tokens, st1.pos) is SemiCol {
                    let next = at(st1, st1.pos + 1);
                    lemma_statements_are_orderly(tokens, next, items.push(node));
                    lemma_extends_is_transitive(
                        st,
                        next,
                        statements(tokens, next, items.push(node)).1,
                    );
                }
            },
            Err(_) => {},
        }
    }
}

/// Reading a whole program is orderly.
pub proof fn lemma_program_is_orderly(tokens: Seq<TokenModel>, st: ParseState)
    requires
        0 <= st.pos <= tokens.len(),
    ensures
        orderly(st, program(tokens, st)),
{
    lemma_statements_are_orderly(tokens, st, Seq::empty());
}

} // verus!
