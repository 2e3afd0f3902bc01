//! The parser: it reads tokens in one pass, builds the expression tree, binds
//! names and declares types as it goes.

use crate::expr::{
    node_models, outcome, pair_models, Expr, Node, NodeModel, ParseError, ParseErrorModel,
};
use crate::grammar::{
    at, block, condition, continuation, current, else_branch, expression, field_name,
    function_literal, has_field, literal, primary, primitive_type, program, statements,
    struct_fields, struct_literal, top_level, type_expr, unexpected, wrap, ParseState, ROOT_ID,
};
use crate::lexer::{token_models, Lexer, Op, Token, TokenModel};
use crate::name_map::{lemma_same_names_same_place, put, with_bound};
use crate::scope::Scope;
use crate::type_def::{models_of, Type, TypeModel};
use crate::type_env::TypeEnvironment;
use std::sync::Arc;
use vstd::prelude::*;

verus! {

/// A parser over the tokens of one source text.
pub struct Parser {
    tokens: Vec<Token>,
    end: Token,
    pos: usize,
    types: TypeEnvironment,
    scope: Scope,
    next_id: u64,
}

/// The mathematical value of a [`Parser`]: its tokens, and what it knows at
/// the place where it stands.
pub struct ParserModel {
    pub tokens: Seq<TokenModel>,
    pub state: ParseState,
}

impl View for Parser {
    type V = ParserModel;

    closed spec fn view(&self) -> ParserModel {
        ParserModel {
            tokens: token_models(self.tokens@),
            state: ParseState {
                pos: self.pos as int,
                types: self.types@,
                scope: self.scope@,
                next_id: self.next_id as nat,
            },
        }
    }
}

/// The literal that a literal token writes.
fn literal_of(token: &Token) -> (r: Option<Expr>)
    ensures
        match r {
            Some(e) => literal(token@) == Some(e@),
            None => literal(token@) is None,
        },
{
    match token {
        Token::Bool(b) => Some(Expr::Bool(*b)),
        Token::Int(i) => Some(Expr::Int(*i)),
        Token::UInt(u) => Some(Expr::Uint(*u)),
        Token::Char(c) => Some(Expr::Char(*c)),
        Token::Float(text) => Some(Expr::Float(text.clone())),
        Token::String(text) => Some(Expr::String(text.clone())),
        Token::TNone => Some(Expr::Option(None)),
        _ => None,
    }
}

/// The primitive type that a type keyword names.
fn primitive_of(token: &Token) -> (r: Option<Type>)
    ensures
        match r {
            Some(t) => primitive_type(token@) == Some(t@),
            None => primitive_type(token@) is None,
        },
{
    match token {
        Token::TNone => Some(Type::NoneType),
        Token::TBool => Some(Type::Bool),
        Token::TInt => Some(Type::Int),
        Token::TUint => Some(Type::Uint),
        Token::TChar => Some(Type::Char),
        Token::TFloat => Some(Type::Float),
        Token::TString => Some(Type::String),
        _ => None,
    }
}

/// Whether one of `fields` is named `name`.
fn names_field(fields: &Vec<Arc<Type>>, name: &String) -> (r: bool)
    ensures
        r == has_field(models_of(fields@), name@),
{
    let mut i: usize = 0;
    while i < fields.len()
        invariant
            i <= fields.len(),
            forall|k: int| 0 <= k < i ==> field_name(#[trigger] models_of(fields@)[k]) != Some(name@),
        decreases fields.len() - i,
    {
        let found = match &*fields[i] {
            Type::TypeDef { name: n, type_def } => *n == *name,
            _ => false,
        };
        if found {
            assert(field_name(models_of(fields@)[i as int]) == Some(name@));
            return true;
        }
        i += 1;
    }
    false
}

impl Parser {
    /// The parser stands within its tokens, and has given out no more
    /// identities than it has read tokens.
    pub closed spec fn wf(&self) -> bool {
        &&& self.pos <= self.tokens.len()
        &&& self.next_id <= self.pos
        &&& self.end@ is EOF
    }

    /// How many more tokens the parser has read than it has given out
    /// identities.
    pub closed spec fn slack(&self) -> int {
        self.pos - self.next_id
    }

    /// A parser at the start of `tokens`, with nothing declared or bound.
    pub fn from_tokens(tokens: Vec<Token>) -> (r: Parser)
        ensures
            r.wf(),
            r@.tokens == token_models(tokens@),
            r@.state.pos == 0,
            r@.state.types == crate::type_env::TypeEnvModel::empty(),
            r@.state.scope == Map::<Seq<char>, NodeModel>::empty(),
            r@.state.next_id == 0,
    {
        Parser {
            tokens,
            end: Token::EOF,
            pos: 0,
            types: TypeEnvironment::new(),
            scope: Scope::new(),
            next_id: 0,
        }
    }

    /// A parser over the tokens that `lexer` gives from where it stands.
    pub fn new(lexer: Lexer) -> (r: Parser)
        ensures
            r.wf(),
            r@.tokens == crate::lexer::scan_all(lexer@.chars, lexer@.pos),
            r@.state.pos == 0,
            r@.state.types == crate::type_env::TypeEnvModel::empty(),
            r@.state.scope == Map::<Seq<char>, NodeModel>::empty(),
            r@.state.next_id == 0,
    {
        let mut lexer = lexer;
        Parser::from_tokens(lexer.tokenize())
    }

    /// The names bound so far.
    pub fn scope(&self) -> (r: &Scope)
        ensures
            r@ == self@.state.scope,
    {
        &self.scope
    }

    /// The types declared so far.
    pub fn types(&self) -> (r: &TypeEnvironment)
        ensures
            r@ == self@.state.types,
    {
        &self.types
    }

    /// The current token; `EOF` once the tokens have ended.
    pub fn current_token(&self) -> (r: &Token)
        requires
            self.wf(),
        ensures
            r@ == current(self@.tokens, self@.state.pos),
    {
        self.look(0)
    }

    /// Moves past the current token, unless the tokens have ended, and gives
    /// the token that is then the current one.
    pub fn next_token(&mut self) -> (r: &Token)
        requires
            old(self).wf(),
        ensures
            final(self).wf(),
            final(self)@.tokens == old(self)@.tokens,
            final(self)@.state == at(
                old(self)@.state,
                if old(self)@.state.pos < old(self)@.tokens.len() {
                    old(self)@.state.pos + 1
                } else {
                    old(self)@.state.pos
                },
            ),
            r@ == current(final(self)@.tokens, final(self)@.state.pos),
    {
        if self.pos < self.tokens.len() {
            self.pos = self.pos + 1;
        }
        self.look(0)
    }

    /// The token `ahead` places after the current one.
    fn look(&self, ahead: usize) -> (r: &Token)
        requires
            self.wf(),
        ensures
            r@ == current(self@.tokens, self@.state.pos + ahead),
    {
        if ahead < self.tokens.len() - self.pos {
            &self.tokens[self.pos + ahead]
        } else {
            &self.end
        }
    }

    /// The error for the token `ahead` places after the current one, with
    /// what was expected there.
    fn unexpected_at(&self, ahead: usize, expected: &str) -> (r: ParseError)
        requires
            self.wf(),
        ensures
            r@ == unexpected(self@.tokens, self@.state.pos + ahead, expected@),
    {
        ParseError::UnexpectedToken(self.look(ahead).duplicate(), String::from_str(expected))
    }

    /// Moves `count` tokens on.
    fn skip(&mut self, count: usize)
        requires
            old(self).wf(),
            old(self)@.state.pos + count <= old(self)@.tokens.len(),
        ensures
            final(self).wf(),
            final(self)@.tokens == old(self)@.tokens,
            final(self)@.state == at(old(self)@.state, old(self)@.state.pos + count),
            final(self).slack() == old(self).slack() + count,
    {
        self.pos = self.pos + count;
    }

    /// The node for a new expression.
    fn wrap(&mut self, expr: Expr) -> (r: Node)
        requires
            old(self).wf(),
            old(self).slack() >= 1,
        ensures
            final(self).wf(),
            final(self)@.tokens == old(self)@.tokens,
            (r@, final(self)@.state) == wrap(expr@, old(self)@.state),
            final(self).slack() >= old(self).slack() - 1,
            final(self)@.state.pos == old(self)@.state.pos,
    {
        if expr.is_literal() {
            Node::new(0, expr)
        } else {
            let id = self.next_id;
            self.next_id = id + 1;
            Node::new(id, expr)
        }
    }
}

/// The view of an optional name.
pub open spec fn name_of(name: Option<&String>) -> Option<Seq<char>> {
    match name {
        Some(n) => Some(n@),
        None => None,
    }
}

/// The model of what reading an else branch gives.
pub open spec fn chosen(r: Result<Option<Node>, ParseError>) -> Result<
    Option<NodeModel>,
    ParseErrorModel,
> {
    match r {
        Ok(Some(node)) => Ok(Some(node@)),
        Ok(None) => Ok(None),
        Err(e) => Err(e@),
    }
}

/// The model of what reading a list of statements gives.
pub open spec fn listed(r: Result<Vec<Node>, ParseError>) -> Result<Seq<NodeModel>, ParseErrorModel> {
    match r {
        Ok(items) => Ok(node_models(items@)),
        Err(e) => Err(e@),
    }
}

impl Parser {
    /// Reads a type expression.
    ///
    /// `own_name` is the name of the type that is being declared, if the type
    /// expression is the body of a declaration.
    pub fn parse_type(&mut self, own_name: Option<&String>) -> (r: Result<Type, ParseError>)
        requires
            old(self).wf(),
        ensures
            final(self).wf(),
            final(self)@.tokens == old(self)@.tokens,
            (outcome(r), final(self)@.state.pos) == type_expr(
                old(self)@.tokens,
                old(self)@.state.pos,
                old(self)@.state.types,
                name_of(own_name),
            ),
            final(self)@.state == at(old(self)@.state, final(self)@.state.pos),
            final(self).slack() >= old(self).slack(),
            r is Ok ==> old(self)@.state.pos < final(self)@.state.pos,
        decreases old(self)@.tokens.len() - old(self)@.state.pos, 1int,
    {
        let token = self.look(0).duplicate();
        match token {
            Token::Generic => {
                self.skip(1);
                Ok(Type::Generic)
            },
            Token::LBrace => {
                self.skip(1);
                let element = match self.parse_type(own_name) {
                    Ok(element) => element,
                    Err(e) => {
                        return Err(e);
                    },
                };
                match self.look(0) {
                    Token::RBrace => {
                        self.skip(1);
                        Ok(Type::Array { array_type: Arc::new(element) })
                    },
                    _ => Err(self.unexpected_at(0, "expected `]`")),
                }
            },
            Token::LBrack => {
                self.skip(1);
                self.parse_struct_fields(own_name)
            },
            Token::Ident(name) => {
                let own = match own_name {
                    Some(n) => *n == name,
                    None => false,
                };
                if own {
                    self.skip(1);
                    Ok(Type::Generic)
                } else {
                    match self.types.resolve_type(&name) {
                        Ok(t) => {
                            self.skip(1);
                            Ok(t.duplicate())
                        },
                        Err(e) => Err(e),
                    }
                }
            },
            _ => match primitive_of(&token) {
                Some(t) => {
                    self.skip(1);
                    Ok(t)
                },
                None => Err(self.unexpected_at(0, "expected a type")),
            },
        }
    }

    /// Reads the fields of a structure type, after its opening `{`.
    fn parse_struct_fields(&mut self, own_name: Option<&String>) -> (r: Result<Type, ParseError>)
        requires
            old(self).wf(),
        ensures
            final(self).wf(),
            final(self)@.tokens == old(self)@.tokens,
            (outcome(r), final(self)@.state.pos) == struct_fields(
                old(self)@.tokens,
                old(self)@.state.pos,
                old(self)@.state.types,
                name_of(own_name),
                Seq::empty(),
            ),
            final(self)@.state == at(old(self)@.state, final(self)@.state.pos),
            final(self).slack() >= old(self).slack(),
            r is Ok ==> old(self)@.state.pos < final(self)@.state.pos,
        decreases old(self)@.tokens.len() - old(self)@.state.pos, 0int,
    {
        let mut fields: Vec<Arc<Type>> = Vec::new();
        let ghost tokens = self@.tokens;
        let ghost types = self@.state.types;
        let ghost start = self@.state.pos;
        proof {
            assert(models_of(fields@) =~= Seq::<TypeModel>::empty());
        }
        loop
            invariant
                self.wf(),
                self@.tokens == tokens,
                tokens == old(self)@.tokens,
                types == old(self)@.state.types,
                start == old(self)@.state.pos,
                start <= self@.state.pos,
                self@.state == at(old(self)@.state, self@.state.pos),
                self.slack() >= old(self).slack(),
                struct_fields(tokens, start, types, name_of(own_name), Seq::empty())
                    == struct_fields(
                    tokens,
                    self@.state.pos,
                    types,
                    name_of(own_name),
                    models_of(fields@),
                ),
            decreases tokens.len() - self@.state.pos,
        {
            let token = self.look(0).duplicate();
            match token {
                Token::RBrack => {
                    self.skip(1);
                    let r = Type::Struct { pairs: fields };
                    proof {
                        assert(r@->Struct_0 =~= models_of(fields@));
                    }
                    return Ok(r);
                },
                Token::Ident(name) => {
                    if names_field(&fields, &name) {
                        return Err(
                            self.unexpected_at(0, "expected a field name that is not in use"),
                        );
                    }
                    match self.look(1) {
                        Token::Colon => {},
                        _ => {
                            let e = self.unexpected_at(1, "expected `:`");
                            self.skip(1);
                            return Err(e);
                        },
                    }
                    self.skip(2);
                    let t = match self.parse_type(own_name) {
                        Ok(t) => t,
                        Err(e) => {
                            return Err(e);
                        },
                    };
                    let ghost before = models_of(fields@);
                    let field = Type::TypeDef { name, type_def: Arc::new(t) };
                    let ghost field_model = field@;
                    fields.push(Arc::new(field));
                    proof {
                        assert(models_of(fields@) =~= before.push(field_model));
                    }
                    match self.look(0) {
                        Token::Comma => {
                            self.skip(1);
                        },
                        Token::SemiCol => {
                            self.skip(1);
                        },
                        Token::RBrack => {},
                        _ => {
                            return Err(self.unexpected_at(0, "expected `,`, `;` or `}`"));
                        },
                    }
                },
                _ => {
                    return Err(self.unexpected_at(0, "expected a field name or `}`"));
                },
            }
        }
    }
}

impl Parser {
    /// Reads an expression.
    pub fn parse_expression(&mut self) -> (r: Result<Node, ParseError>)
        requires
            old(self).wf(),
        ensures
            final(self).wf(),
            final(self)@.tokens == old(self)@.tokens,
            (outcome(r), final(self)@.state) == expression(old(self)@.tokens, old(self)@.state),
            final(self).slack() >= old(self).slack(),
            r is Ok ==> old(self)@.state.pos < final(self)@.state.pos,
        decreases old(self)@.tokens.len() - old(self)@.state.pos, 3int,
    {
        let subject = match self.parse_primary() {
            Ok(subject) => subject,
            Err(e) => {
                return Err(e);
            },
        };
        self.parse_continuation(subject)
    }

    /// Reads what follows the primary expression `subject`: method
    /// applications, then possibly a binary operator with its right operand.
    fn parse_continuation(&mut self, first: Node) -> (r: Result<Node, ParseError>)
        requires
            old(self).wf(),
        ensures
            final(self).wf(),
            final(self)@.tokens == old(self)@.tokens,
            (outcome(r), final(self)@.state) == continuation(
                old(self)@.tokens,
                old(self)@.state,
                first@,
            ),
            final(self).slack() >= old(self).slack(),
            r is Ok ==> old(self)@.state.pos <= final(self)@.state.pos,
        decreases old(self)@.tokens.len() - old(self)@.state.pos, 1int,
    {
        let ghost tokens = self@.tokens;
        let ghost goal = continuation(tokens, self@.state, first@);
        let mut subject = first;
        loop
            invariant
                self.wf(),
                self@.tokens == tokens,
                tokens == old(self)@.tokens,
                old(self)@.state.pos <= self@.state.pos,
                self.slack() >= old(self).slack(),
                goal == continuation(old(self)@.tokens, old(self)@.state, first@),
                goal == continuation(tokens, self@.state, subject@),
            decreases tokens.len() - self@.state.pos,
        {
            let token = self.look(0).duplicate();
            match token {
                Token::Period => {
                    let method = match self.look(1) {
                        Token::Ident(method) => method.clone(),
                        _ => {
                            let e = self.unexpected_at(1, "expected a method name");
                            self.skip(1);
                            return Err(e);
                        },
                    };
                    match self.look(2) {
                        Token::LParen => {},
                        _ => {
                            let e = self.unexpected_at(2, "expected `(`");
                            self.skip(2);
                            return Err(e);
                        },
                    }
                    if method == String::from_str("as") {
                        let name = match self.look(3) {
                            Token::Ident(name) => name.clone(),
                            _ => {
                                let e = self.unexpected_at(3, "expected a name");
                                self.skip(3);
                                return Err(e);
                            },
                        };
                        match self.look(4) {
                            Token::RParen => {},
                            _ => {
                                let e = self.unexpected_at(4, "expected `)`");
                                self.skip(4);
                                return Err(e);
                            },
                        }
                        self.skip(5);
                        self.scope.bind(name, subject.share());
                    } else if method == String::from_str("pass_to") {
                        self.skip(3);
                        let target = match self.parse_expression() {
                            Ok(target) => target,
                            Err(e) => {
                                return Err(e);
                            },
                        };
                        match self.look(0) {
                            Token::RParen => {},
                            _ => {
                                return Err(self.unexpected_at(0, "expected `)`"));
                            },
                        }
                        self.skip(1);
                        subject = self.scope.resolve_redirect(target);
                    } else {
                        let e = self.unexpected_at(1, "expected the method `as` or `pass_to`");
                        self.skip(1);
                        return Err(e);
                    }
                },
                Token::Op(op) => {
                    if op != Op::Not {
                        self.skip(1);
                        let right = match self.parse_expression() {
                            Ok(right) => right,
                            Err(e) => {
                                return Err(e);
                            },
                        };
                        let built = Expr::binary(op, subject, right);
                        return Ok(self.wrap(built));
                    } else {
                        return Ok(subject);
                    }
                },
                _ => {
                    return Ok(subject);
                },
            }
        }
    }

    /// Reads a primary expression.
    fn parse_primary(&mut self) -> (r: Result<Node, ParseError>)
        requires
            old(self).wf(),
        ensures
            final(self).wf(),
            final(self)@.tokens == old(self)@.tokens,
            (outcome(r), final(self)@.state) == primary(old(self)@.tokens, old(self)@.state),
            final(self).slack() >= old(self).slack(),
            r is Ok ==> old(self)@.state.pos < final(self)@.state.pos,
        decreases old(self)@.tokens.len() - old(self)@.state.pos, 2int,
    {
        let token = self.look(0).duplicate();
        match token {
            Token::Param => {
                self.skip(1);
                Ok(self.wrap(Expr::Param))
            },
            Token::Op(op) => {
                if op == Op::Not || op == Op::Sub {
                    self.skip(1);
                    let inner = match self.parse_expression() {
                        Ok(inner) => inner,
                        Err(e) => {
                            return Err(e);
                        },
                    };
                    if op == Op::Not {
                        Ok(self.wrap(Expr::not(inner)))
                    } else {
                        match Expr::neg(inner) {
                            Ok(negated) => Ok(self.wrap(negated)),
                            Err(e) => Err(e),
                        }
                    }
                } else {
                    Err(self.unexpected_at(0, "expected an expression"))
                }
            },
            Token::Ident(name) => {
                let declares = match self.look(1) {
                    Token::Colon => true,
                    _ => false,
                };
                if declares {
                    self.skip(2);
                    let t = match self.parse_type(Some(&name)) {
                        Ok(t) => t,
                        Err(e) => {
                            return Err(e);
                        },
                    };
                    let canonical = match self.types.declare_type(name.clone(), t) {
                        Ok(canonical) => canonical,
                        Err(e) => {
                            return Err(e);
                        },
                    };
                    Ok(self.wrap(Expr::Type(Type::TypeDef { name, type_def: canonical })))
                } else {
                    match self.scope.lookup(&name) {
                        Ok(bound) => {
                            self.skip(1);
                            Ok(bound)
                        },
                        Err(_) => {
                            self.skip(1);
                            Ok(self.wrap(Expr::Identifier(name)))
                        },
                    }
                }
            },
            Token::LParen => {
                self.skip(1);
                let inner = match self.parse_expression() {
                    Ok(inner) => inner,
                    Err(e) => {
                        return Err(e);
                    },
                };
                match self.look(0) {
                    Token::RParen => {
                        self.skip(1);
                        Ok(inner)
                    },
                    _ => Err(self.unexpected_at(0, "expected `)`")),
                }
            },
            Token::FnTypes => {
                self.skip(1);
                self.parse_function_literal()
            },
            Token::LBrack => {
                self.skip(1);
                self.parse_struct_literal()
            },
            Token::If => {
                self.skip(1);
                self.parse_if()
            },
            _ => match literal_of(&token) {
                Some(value) => {
                    self.skip(1);
                    Ok(self.wrap(value))
                },
                None => match primitive_of(&token) {
                    Some(t) => {
                        self.skip(1);
                        Ok(self.wrap(Expr::Type(t)))
                    },
                    None => Err(self.unexpected_at(0, "expected an expression")),
                },
            },
        }
    }

    /// Reads a function literal, after its opening `|`.
    fn parse_function_literal(&mut self) -> (r: Result<Node, ParseError>)
        requires
            old(self).wf(),
        ensures
            final(self).wf(),
            final(self)@.tokens == old(self)@.tokens,
            (outcome(r), final(self)@.state) == function_literal(
                old(self)@.tokens,
                old(self)@.state,
            ),
            final(self).slack() >= old(self).slack(),
            r is Ok ==> old(self)@.state.pos < final(self)@.state.pos,
        decreases old(self)@.tokens.len() - old(self)@.state.pos, 7int,
    {
        let param = match self.parse_type(None) {
            Ok(param) => param,
            Err(e) => {
                return Err(e);
            },
        };
        match self.look(0) {
            Token::Arrow => {},
            _ => {
                return Err(self.unexpected_at(0, "expected `->`"));
            },
        }
        self.skip(1);
        let ret = match self.parse_type(None) {
            Ok(ret) => ret,
            Err(e) => {
                return Err(e);
            },
        };
        match self.look(0) {
            Token::FnTypes => {},
            _ => {
                return Err(self.unexpected_at(0, "expected `|`"));
            },
        }
        self.skip(1);
        let body = match self.parse_braces() {
            Ok(body) => body,
            Err(e) => {
                return Err(e);
            },
        };
        let built = Expr::Function {
            param_sig: param.get_sig(),
            return_sig: ret.get_sig(),
            block: body,
        };
        Ok(self.wrap(built))
    }

    /// Reads a structure literal, after its opening `{`.
    fn parse_struct_literal(&mut self) -> (r: Result<Node, ParseError>)
        requires
            old(self).wf(),
            old(self).slack() >= 1,
        ensures
            final(self).wf(),
            final(self)@.tokens == old(self)@.tokens,
            (outcome(r), final(self)@.state) == struct_literal(
                old(self)@.tokens,
                old(self)@.state,
                Seq::empty(),
            ),
            final(self).slack() >= old(self).slack(),
            r is Ok ==> old(self)@.state.pos < final(self)@.state.pos,
        decreases old(self)@.tokens.len() - old(self)@.state.pos, 7int,
    {
        let mut pairs: Vec<(String, Node)> = Vec::new();
        let ghost tokens = self@.tokens;
        let ghost goal = struct_literal(tokens, self@.state, Seq::empty());
        proof {
            assert(pair_models(pairs@) =~= Seq::<(Seq<char>, NodeModel)>::empty());
        }
        loop
            invariant
                self.wf(),
                self@.tokens == tokens,
                tokens == old(self)@.tokens,
                old(self)@.state.pos <= self@.state.pos,
                self.slack() >= old(self).slack(),
                goal == struct_literal(old(self)@.tokens, old(self)@.state, Seq::empty()),
                goal == struct_literal(tokens, self@.state, pair_models(pairs@)),
            decreases tokens.len() - self@.state.pos,
        {
            let token = self.look(0).duplicate();
            match token {
                Token::RBrack => {
                    self.skip(1);
                    let built = Expr::Struct { pairs };
                    proof {
                        assert(built@->Struct_0 =~= pair_models(pairs@));
                    }
                    return Ok(self.wrap(built));
                },
                Token::Ident(name) => {
                    match self.look(1) {
                        Token::Colon => {},
                        _ => {
                            let e = self.unexpected_at(1, "expected `:`");
                            self.skip(1);
                            return Err(e);
                        },
                    }
                    self.skip(2);
                    let value = match self.parse_expression() {
                        Ok(value) => value,
                        Err(e) => {
                            return Err(e);
                        },
                    };
                    let ghost before = pairs@;
                    let ghost key = name@;
                    let ghost value_model = value@;
                    put(&mut pairs, name, value);
                    proof {
                        crate::name_map::lemma_position(before, key);
                        lemma_same_names_same_place(before, pair_models(before), key);
                        assert(pair_models(pairs@) =~= with_bound(
                            pair_models(before),
                            key,
                            value_model,
                        ));
                    }
                    match self.look(0) {
                        Token::Comma => {
                            self.skip(1);
                        },
                        Token::RBrack => {},
                        _ => {
                            return Err(self.unexpected_at(0, "expected `,` or `}`"));
                        },
                    }
                },
                _ => {
                    return Err(self.unexpected_at(0, "expected a field name or `}`"));
                },
            }
        }
    }

    /// Reads the else branch of a conditional, if there is one.
    fn parse_else(&mut self) -> (r: Result<Option<Node>, ParseError>)
        requires
            old(self).wf(),
        ensures
            final(self).wf(),
            final(self)@.tokens == old(self)@.tokens,
            (chosen(r), final(self)@.state) == else_branch(old(self)@.tokens, old(self)@.state),
            final(self).slack() >= old(self).slack(),
            r is Ok ==> old(self)@.state.pos <= final(self)@.state.pos,
        decreases old(self)@.tokens.len() - old(self)@.state.pos, 7int,
    {
        let has_else = match self.look(0) {
            Token::Else => true,
            _ => false,
        };
        if has_else {
            self.skip(1);
            match self.parse_braces() {
                Ok(else_node) => Ok(Some(else_node)),
                Err(e) => Err(e),
            }
        } else {
            Ok(None)
        }
    }

    /// Reads a conditional, after its `if`.
    fn parse_if(&mut self) -> (r: Result<Node, ParseError>)
        requires
            old(self).wf(),
            old(self).slack() >= 1,
        ensures
            final(self).wf(),
            final(self)@.tokens == old(self)@.tokens,
            (outcome(r), final(self)@.state) == condition(old(self)@.tokens, old(self)@.state),
            final(self).slack() >= old(self).slack() - 1,
            r is Ok ==> old(self)@.state.pos < final(self)@.state.pos,
        decreases old(self)@.tokens.len() - old(self)@.state.pos, 8int,
    {
        let test = match self.parse_expression() {
            Ok(test) => test,
            Err(e) => {
                return Err(e);
            },
        };
        let then_node = match self.parse_braces() {
            Ok(then_node) => then_node,
            Err(e) => {
                return Err(e);
            },
        };
        let else_node = match self.parse_else() {
            Ok(else_node) => else_node,
            Err(e) => {
                return Err(e);
            },
        };
        let wrap_id = self.next_id;
        let node_id = wrap_id + 1;
        self.next_id = wrap_id + 2;
        Ok(Expr::conditional(test, then_node, else_node, wrap_id, node_id))
    }

    /// Reads a block in braces.
    fn parse_braces(&mut self) -> (r: Result<Node, ParseError>)
        requires
            old(self).wf(),
        ensures
            final(self).wf(),
            final(self)@.tokens == old(self)@.tokens,
            (outcome(r), final(self)@.state) == block(old(self)@.tokens, old(self)@.state),
            final(self).slack() >= old(self).slack(),
            r is Ok ==> final(self).slack() >= old(self).slack() + 1,
            r is Ok ==> old(self)@.state.pos < final(self)@.state.pos,
        decreases old(self)@.tokens.len() - old(self)@.state.pos, 6int,
    {
        match self.look(0) {
            Token::LBrack => {},
            _ => {
                return Err(self.unexpected_at(0, "expected `{`"));
            },
        }
        self.skip(1);
        let items = match self.parse_statements() {
            Ok(items) => items,
            Err(e) => {
                return Err(e);
            },
        };
        match self.look(0) {
            Token::RBrack => {},
            _ => {
                return Err(self.unexpected_at(0, "expected `}`"));
            },
        }
        self.skip(1);
        let built = Expr::Block(items);
        proof {
            assert(built@->Block_0 =~= node_models(items@));
        }
        Ok(self.wrap(built))
    }

    /// Reads the statements of a block, up to a `}` or the end of the input.
    fn parse_statements(&mut self) -> (r: Result<Vec<Node>, ParseError>)
        requires
            old(self).wf(),
        ensures
            final(self).wf(),
            final(self)@.tokens == old(self)@.tokens,
            (listed(r), final(self)@.state) == statements(
                old(self)@.tokens,
                old(self)@.state,
                Seq::empty(),
            ),
            final(self).slack() >= old(self).slack(),
            r is Ok ==> old(self)@.state.pos <= final(self)@.state.pos,
        decreases old(self)@.tokens.len() - old(self)@.state.pos, 5int,
    {
        let mut items: Vec<Node> = Vec::new();
        let ghost tokens = self@.tokens;
        let ghost goal = statements(tokens, self@.state, Seq::empty());
        proof {
            assert(node_models(items@) =~= Seq::<NodeModel>::empty());
        }
        loop
            invariant
                self.wf(),
                self@.tokens == tokens,
                tokens == old(self)@.tokens,
                old(self)@.state.pos <= self@.state.pos,
                self.slack() >= old(self).slack(),
                goal == statements(old(self)@.tokens, old(self)@.state, Seq::empty()),
                goal == statements(tokens, self@.state, node_models(items@)),
            decreases tokens.len() - self@.state.pos,
        {
            let at_end = match self.look(0) {
                Token::EOF => true,
                Token::RBrack => true,
                _ => false,
            };
            if at_end {
                return Ok(items);
            }
            let item = match self.parse_expression() {
                Ok(item) => item,
                Err(e) => {
                    return Err(e);
                },
            };
            let ghost before = node_models(items@);
            let ghost item_model = item@;
            items.push(item);
            proof {
                assert(node_models(items@) =~= before.push(item_model));
            }
            let next = self.look(0).duplicate();
            match next {
                Token::SemiCol => {
                    self.skip(1);
                },
                Token::EOF => {
                    return Ok(items);
                },
                Token::RBrack => {
                    return Ok(items);
                },
                _ => {
                    return Err(self.unexpected_at(0, "expected `;` or the end of the block"));
                },
            }
        }
    }

    /// Reads a block: a whole program, which ends with the input, where
    /// `is_main` holds, and a block in braces where it does not.
    pub fn parse_block(&mut self, is_main: bool) -> (r: Result<Node, ParseError>)
        requires
            old(self).wf(),
        ensures
            final(self).wf(),
            final(self)@.tokens == old(self)@.tokens,
            (outcome(r), final(self)@.state) == if is_main {
                program(old(self)@.tokens, old(self)@.state)
            } else {
                block(old(self)@.tokens, old(self)@.state)
            },
    {
        if is_main {
            let items = match self.parse_statements() {
                Ok(items) => items,
                Err(e) => {
                    return Err(e);
                },
            };
            match self.look(0) {
                Token::EOF => {},
                _ => {
                    return Err(self.unexpected_at(0, "expected the end of the input"));
                },
            }
            let built = Expr::Block(items);
            proof {
                assert(built@->Block_0 =~= node_models(items@));
            }
            Ok(Node::new(ROOT_ID, built))
        } else {
            self.parse_braces()
        }
    }

    /// Reads one statement at the top of a program, with the `;` that ends
    /// it.
    pub fn parse_top_level_expr(&mut self) -> (r: Result<Node, ParseError>)
        requires
            old(self).wf(),
        ensures
            final(self).wf(),
            final(self)@.tokens == old(self)@.tokens,
            (outcome(r), final(self)@.state) == top_level(old(self)@.tokens, old(self)@.state),
    {
        let item = match self.parse_expression() {
            Ok(item) => item,
            Err(e) => {
                return Err(e);
            },
        };
        match self.look(0) {
            Token::SemiCol => {},
            _ => {
                return Err(self.unexpected_at(0, "expected `;`"));
            },
        }
        self.skip(1);
        Ok(item)
    }

    /// Reads a whole program.
    pub fn parse(&mut self) -> (r: Result<Node, ParseError>)
        requires
            old(self).wf(),
        ensures
            final(self).wf(),
            final(self)@.tokens == old(self)@.tokens,
            (outcome(r), final(self)@.state) == program(old(self)@.tokens, old(self)@.state),
    {
        self.parse_block(true)
    }
}

} // verus!
