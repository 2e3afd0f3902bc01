//! The tokenizer: from the characters of a source text to tokens.

use crate::text::{chars_of, is_alphanumeric, text_between, unicode_alphanumeric};
use vstd::prelude::*;

verus! {

/// An operator of the language.
#[derive(Debug, Clone, Copy, PartialEq, Eq, Structural)]
pub enum Op {
    Add,
    Sub,
    Mul,
    Div,
    Mod,
    Eq,
    Neq,
    Not,
}

/// A lexical token.
#[derive(Debug, Clone, PartialEq)]
pub enum Token {
    /// The end of the input.
    EOF,
    /// A character that starts no token.
    Invalid(char),
    Int(i64),
    UInt(u64),
    /// A number with a decimal point, kept as it was written.
    Float(String),
    Char(char),
    Ident(String),
    /// A text between double quotes.
    String(String),
    Bool(bool),
    Period,
    Op(Op),
    If,
    Else,
    /// `{`
    LBrack,
    /// `}`
    RBrack,
    LParen,
    RParen,
    /// `[`
    LBrace,
    /// `]`
    RBrace,
    SemiCol,
    Colon,
    Comma,
    /// `->`
    Arrow,
    /// `|`, which opens and closes the types of a function literal.
    FnTypes,
    /// `$`, the argument of the enclosing function.
    Param,
    /// `generic`, the placeholder type.
    Generic,
    TNone,
    TBool,
    TInt,
    TUint,
    TChar,
    TFloat,
    TString,
}

/// The mathematical value of a [`Token`].
pub enum TokenModel {
    EOF,
    Invalid(char),
    Int(i64),
    UInt(u64),
    Float(Seq<char>),
    Char(char),
    Ident(Seq<char>),
    String(Seq<char>),
    Bool(bool),
    Period,
    Op(Op),
    If,
    Else,
    LBrack,
    RBrack,
    LParen,
    RParen,
    LBrace,
    RBrace,
    SemiCol,
    Colon,
    Comma,
    Arrow,
    FnTypes,
    Param,
    Generic,
    TNone,
    TBool,
    TInt,
    TUint,
    TChar,
    TFloat,
    TString,
}

impl View for Token {
    type V = TokenModel;

    open spec fn view(&self) -> TokenModel {
        match self {
            Token::EOF => TokenModel::EOF,
            Token::Invalid(c) => TokenModel::Invalid(*c),
            Token::Int(i) => TokenModel::Int(*i),
            Token::UInt(u) => TokenModel::UInt(*u),
            Token::Float(text) => TokenModel::Float(text@),
            Token::Char(c) => TokenModel::Char(*c),
            Token::Ident(name) => TokenModel::Ident(name@),
            Token::String(text) => TokenModel::String(text@),
            Token::Bool(b) => TokenModel::Bool(*b),
            Token::Period => TokenModel::Period,
            Token::Op(op) => TokenModel::Op(*op),
            Token::If => TokenModel::If,
            Token::Else => TokenModel::Else,
            Token::LBrack => TokenModel::LBrack,
            Token::RBrack => TokenModel::RBrack,
            Token::LParen => TokenModel::LParen,
            Token::RParen => TokenModel::RParen,
            Token::LBrace => TokenModel::LBrace,
            Token::RBrace => TokenModel::RBrace,
            Token::SemiCol => TokenModel::SemiCol,
            Token::Colon => TokenModel::Colon,
            Token::Comma => TokenModel::Comma,
            Token::Arrow => TokenModel::Arrow,
            Token::FnTypes => TokenModel::FnTypes,
            Token::Param => TokenModel::Param,
            Token::Generic => TokenModel::Generic,
            Token::TNone => TokenModel::TNone,
            Token::TBool => TokenModel::TBool,
            Token::TInt => TokenModel::TInt,
            Token::TUint => TokenModel::TUint,
            Token::TChar => TokenModel::TChar,
            Token::TFloat => TokenModel::TFloat,
            Token::TString => TokenModel::TString,
        }
    }
}

impl Token {
    /// A copy of this token.
    pub fn duplicate(&self) -> (r: Token)
        ensures
            r@ == self@,
    {
        match self {
            Token::EOF => Token::EOF,
            Token::Invalid(c) => Token::Invalid(*c),
            Token::Int(i) => Token::Int(*i),
            Token::UInt(u) => Token::UInt(*u),
            Token::Float(text) => Token::Float(text.clone()),
            Token::Char(c) => Token::Char(*c),
            Token::Ident(name) => Token::Ident(name.clone()),
            Token::String(text) => Token::String(text.clone()),
            Token::Bool(b) => Token::Bool(*b),
            Token::Period => Token::Period,
            Token::Op(op) => Token::Op(*op),
            Token::If => Token::If,
            Token::Else => Token::Else,
            Token::LBrack => Token::LBrack,
            Token::RBrack => Token::RBrack,
            Token::LParen => Token::LParen,
            Token::RParen => Token::RParen,
            Token::LBrace => Token::LBrace,
            Token::RBrace => Token::RBrace,
            Token::SemiCol => Token::SemiCol,
            Token::Colon => Token::Colon,
            Token::Comma => Token::Comma,
            Token::Arrow => Token::Arrow,
            Token::FnTypes => Token::FnTypes,
            Token::Param => Token::Param,
            Token::Generic => Token::Generic,
            Token::TNone => Token::TNone,
            Token::TBool => Token::TBool,
            Token::TInt => Token::TInt,
            Token::TUint => Token::TUint,
            Token::TChar => Token::TChar,
            Token::TFloat => Token::TFloat,
            Token::TString => Token::TString,
        }
    }
}

/// The views of a list of tokens, element by element.
pub open spec fn token_models(tokens: Seq<Token>) -> Seq<TokenModel> {
    Seq::new(tokens.len(), |i: int| tokens[i]@)
}

/// The character at `i`, if the text is that long.
pub open spec fn char_at(chars: Seq<char>, i: int) -> Option<char> {
    if 0 <= i < chars.len() {
        Some(chars[i])
    } else {
        None
    }
}

/// White space between tokens: blank, tab, line feed, form feed, carriage
/// return.
pub open spec fn is_space(c: char) -> bool {
    c == ' ' || c == '\t' || c == '\n' || c == '\x0C' || c == '\r'
}

/// A decimal digit.
pub open spec fn is_digit(c: char) -> bool {
    '0' <= c <= '9'
}

/// A character that may start an identifier.
pub open spec fn starts_word(c: char) -> bool {
    ('a' <= c <= 'z') || ('A' <= c <= 'Z') || c == '_'
}

/// A character that may stand inside an identifier, given whether it is
/// alphanumeric.
pub open spec fn continues_word_given(c: char, alphanumeric: bool) -> bool {
    alphanumeric || c == '_'
}

/// A character that may stand inside an identifier.
pub open spec fn continues_word(c: char) -> bool {
    continues_word_given(c, unicode_alphanumeric(c))
}

/// A character that does not end a line.
pub open spec fn within_line(c: char) -> bool {
    c != '\r' && c != '\n'
}

/// A character that does not close a quoted text.
pub open spec fn within_quotes(c: char) -> bool {
    c != '"'
}

/// The classes of characters of which the tokenizer reads runs.
#[derive(Debug, Clone, Copy, PartialEq, Eq, Structural)]
pub enum CharClass {
    /// White space.
    Space,
    /// Decimal digits.
    Digit,
    /// What may stand inside an identifier.
    Word,
    /// What does not end a line.
    Line,
    /// What does not close a quoted text.
    Quoted,
}

/// Whether `c` is of the class `class`.
pub open spec fn belongs(class: CharClass, c: char) -> bool {
    match class {
        CharClass::Space => is_space(c),
        CharClass::Digit => is_digit(c),
        CharClass::Word => continues_word(c),
        CharClass::Line => within_line(c),
        CharClass::Quoted => within_quotes(c),
    }
}

/// Where the run of characters of `class` that starts at `pos` ends.
pub open spec fn run_end(chars: Seq<char>, pos: int, class: CharClass) -> int
    decreases chars.len() - pos,
{
    if 0 <= pos < chars.len() && belongs(class, chars[pos]) {
        run_end(chars, pos + 1, class)
    } else {
        pos
    }
}

/// A run ends at or after its start, within the text, at a character that
/// does not belong to it.
pub proof fn lemma_run_end(chars: Seq<char>, pos: int, class: CharClass)
    requires
        0 <= pos <= chars.len(),
    ensures
        pos <= run_end(chars, pos, class) <= chars.len(),
        forall|i: int| pos <= i < run_end(chars, pos, class) ==> belongs(class, #[trigger] chars[i]),
        run_end(chars, pos, class) < chars.len() ==> !belongs(
            class,
            chars[run_end(chars, pos, class)],
        ),
    decreases chars.len() - pos,
{
    if pos < chars.len() && belongs(class, chars[pos]) {
        lemma_run_end(chars, pos + 1, class);
    }
}

/// The value of a decimal digit.
pub open spec fn digit_value(c: char) -> nat {
    (c as u32 - '0' as u32) as nat
}

/// The number that a run of decimal digits writes.
pub open spec fn decimal_value(digits: Seq<char>) -> nat
    decreases digits.len(),
{
    if digits.len() == 0 {
        0
    } else {
        decimal_value(digits.drop_last()) * 10 + digit_value(digits.last())
    }
}

/// The token that a word stands for: a keyword, or else an identifier.
pub open spec fn word_token(word: Seq<char>) -> TokenModel {
    if word == "if"@ {
        TokenModel::If
    } else if word == "else"@ {
        TokenModel::Else
    } else if word == "true"@ {
        TokenModel::Bool(true)
    } else if word == "false"@ {
        TokenModel::Bool(false)
    } else if word == "none"@ {
        TokenModel::TNone
    } else if word == "bool"@ {
        TokenModel::TBool
    } else if word == "int"@ {
        TokenModel::TInt
    } else if word == "uint"@ {
        TokenModel::TUint
    } else if word == "char"@ {
        TokenModel::TChar
    } else if word == "float"@ {
        TokenModel::TFloat
    } else if word == "string"@ {
        TokenModel::TString
    } else if word == "generic"@ {
        TokenModel::Generic
    } else {
        TokenModel::Ident(word)
    }
}

/// The word that starts at `pos`, and where it ends.
pub open spec fn scan_word(chars: Seq<char>, pos: int) -> (TokenModel, int) {
    if 0 <= pos < chars.len() {
        let end = run_end(chars, pos + 1, CharClass::Word);
        (word_token(chars.subrange(pos, end)), end)
    } else {
        (TokenModel::EOF, pos)
    }
}

/// The number that starts at `pos`, and where it ends.
///
/// A run of digits is an `Int`; followed by `u`, a `UInt`. A point belongs to
/// the number only where a digit follows it; the number is then a `Float`.
/// A number that its type cannot hold is `Invalid('.')`, and a number with a
/// point and a `u` is `Invalid('u')`.
pub open spec fn scan_number(chars: Seq<char>, pos: int) -> (TokenModel, int) {
    let whole_end = run_end(chars, pos, CharClass::Digit);
    let value = decimal_value(chars.subrange(pos, whole_end));
    if char_at(chars, whole_end) == Some('.') && (match char_at(chars, whole_end + 1) {
        Some(c) => is_digit(c),
        None => false,
    }) {
        let end = run_end(chars, whole_end + 1, CharClass::Digit);
        if char_at(chars, end) == Some('u') {
            (TokenModel::Invalid('u'), end + 1)
        } else {
            (TokenModel::Float(chars.subrange(pos, end)), end)
        }
    } else if char_at(chars, whole_end) == Some('u') {
        if value <= u64::MAX {
            (TokenModel::UInt(value as u64), whole_end + 1)
        } else {
            (TokenModel::Invalid('.'), whole_end + 1)
        }
    } else {
        if value <= i64::MAX {
            (TokenModel::Int(value as i64), whole_end)
        } else {
            (TokenModel::Invalid('.'), whole_end)
        }
    }
}

/// The character literal whose opening quote stands at `pos`, and where it
/// ends. A literal that the end of the text cuts short is `EOF` after the
/// quote, and `Invalid` after the character; one that is not closed is
/// `Invalid` with the character that stands in the place of the closing
/// quote.
pub open spec fn scan_char(chars: Seq<char>, pos: int) -> (TokenModel, int) {
    match char_at(chars, pos + 1) {
        None => (
            TokenModel::EOF,
            if 0 <= pos < chars.len() {
                pos + 1
            } else {
                pos
            },
        ),
        Some(c) => match char_at(chars, pos + 2) {
            Some(close) => if close == '\'' {
                (TokenModel::Char(c), pos + 3)
            } else {
                (TokenModel::Invalid(close), pos + 2)
            },
            None => (TokenModel::Invalid(c), pos + 2),
        },
    }
}

/// The quoted text whose opening quote stands at `pos`, and where it ends.
pub open spec fn scan_text(chars: Seq<char>, pos: int) -> (TokenModel, int) {
    let end = run_end(chars, pos + 1, CharClass::Quoted);
    if !(0 <= pos < chars.len()) {
        (TokenModel::EOF, pos)
    } else if end < chars.len() {
        (TokenModel::String(chars.subrange(pos + 1, end)), end + 1)
    } else {
        (TokenModel::Invalid('"'), end)
    }
}

/// The token made of one or two punctuation characters at `pos`, and where
/// it ends; `None` where no such token starts with `c`.
pub open spec fn scan_punctuation(chars: Seq<char>, pos: int, c: char) -> Option<
    (TokenModel, int),
> {
    let next = char_at(chars, pos + 1);
    if c == '.' {
        Some((TokenModel::Period, pos + 1))
    } else if c == '+' {
        Some((TokenModel::Op(Op::Add), pos + 1))
    } else if c == '-' {
        if next == Some('>') {
            Some((TokenModel::Arrow, pos + 2))
        } else {
            Some((TokenModel::Op(Op::Sub), pos + 1))
        }
    } else if c == '*' {
        Some((TokenModel::Op(Op::Mul), pos + 1))
    } else if c == '%' {
        Some((TokenModel::Op(Op::Mod), pos + 1))
    } else if c == '=' {
        if next == Some('=') {
            Some((TokenModel::Op(Op::Eq), pos + 2))
        } else {
            Some((TokenModel::Invalid('='), pos + 1))
        }
    } else if c == '!' {
        if next == Some('=') {
            Some((TokenModel::Op(Op::Neq), pos + 2))
        } else {
            Some((TokenModel::Op(Op::Not), pos + 1))
        }
    } else if c == '{' {
        Some((TokenModel::LBrack, pos + 1))
    } else if c == '}' {
        Some((TokenModel::RBrack, pos + 1))
    } else if c == '[' {
        Some((TokenModel::LBrace, pos + 1))
    } else if c == ']' {
        Some((TokenModel::RBrace, pos + 1))
    } else if c == '(' {
        Some((TokenModel::LParen, pos + 1))
    } else if c == ')' {
        Some((TokenModel::RParen, pos + 1))
    } else if c == ';' {
        Some((TokenModel::SemiCol, pos + 1))
    } else if c == ':' {
        Some((TokenModel::Colon, pos + 1))
    } else if c == ',' {
        Some((TokenModel::Comma, pos + 1))
    } else if c == '|' {
        Some((TokenModel::FnTypes, pos + 1))
    } else if c == '$' {
        Some((TokenModel::Param, pos + 1))
    } else {
        None
    }
}

/// The next token at or after `start`, and where it ends.
///
/// White space is skipped; so is a comment, from `//` to the end of its line.
/// At the end of the text the token is `EOF`. A character that starts no
/// token is consumed as `Invalid`.
pub open spec fn scan(chars: Seq<char>, start: int) -> (TokenModel, int)
    decreases chars.len() - start, 0int,
{
    let pos = run_end(chars, start, CharClass::Space);
    if !(0 <= start <= pos < chars.len()) {
        (TokenModel::EOF, pos)
    } else {
        let c = chars[pos];
        if c == '/' {
            if char_at(chars, pos + 1) == Some('/') {
                scan_comment(chars, pos + 2)
            } else {
                (TokenModel::Op(Op::Div), pos + 1)
            }
        } else if c == '\'' {
            scan_char(chars, pos)
        } else if c == '"' {
            scan_text(chars, pos)
        } else if is_digit(c) {
            scan_number(chars, pos)
        } else if starts_word(c) {
            scan_word(chars, pos)
        } else {
            match scan_punctuation(chars, pos, c) {
                Some(found) => found,
                None => (TokenModel::Invalid(c), pos + 1),
            }
        }
    }
}

/// The token that follows a comment whose text starts at `pos`, and where
/// that token ends. The comment runs to the end of its line.
pub open spec fn scan_comment(chars: Seq<char>, pos: int) -> (TokenModel, int)
    decreases chars.len() - pos, 1int,
{
    let line_end = run_end(chars, pos, CharClass::Line);
    if 0 <= pos <= line_end < chars.len() {
        scan(chars, line_end)
    } else {
        (TokenModel::EOF, line_end)
    }
}

/// The tokens from `start` to the end of the text, without the final `EOF`.
pub open spec fn scan_all(chars: Seq<char>, start: int) -> Seq<TokenModel>
    decreases chars.len() - start,
{
    let (token, end) = scan(chars, start);
    if token is EOF || !(start < end <= chars.len()) {
        Seq::empty()
    } else {
        seq![token] + scan_all(chars, end)
    }
}

/// A tokenizer over the characters of one source text.
pub struct Lexer {
    chars: Vec<char>,
    pos: usize,
}

impl Lexer {
    #[verifier::type_invariant]
    spec fn within_text(self) -> bool {
        self.pos <= self.chars.len()
    }
}

/// The mathematical value of a [`Lexer`]: the text, and how far into it the
/// tokenizer stands.
pub struct LexerModel {
    pub chars: Seq<char>,
    pub pos: int,
}

impl View for Lexer {
    type V = LexerModel;

    closed spec fn view(&self) -> LexerModel {
        LexerModel { chars: self.chars@, pos: self.pos as int }
    }
}

/// The token for a word: a keyword, or else an identifier.
pub fn word_to_token(word: String) -> (r: Token)
    ensures
        r@ == word_token(word@),
{
    if word == String::from_str("if") {
        Token::If
    } else if word == String::from_str("else") {
        Token::Else
    } else if word == String::from_str("true") {
        Token::Bool(true)
    } else if word == String::from_str("false") {
        Token::Bool(false)
    } else if word == String::from_str("none") {
        Token::TNone
    } else if word == String::from_str("bool") {
        Token::TBool
    } else if word == String::from_str("int") {
        Token::TInt
    } else if word == String::from_str("uint") {
        Token::TUint
    } else if word == String::from_str("char") {
        Token::TChar
    } else if word == String::from_str("float") {
        Token::TFloat
    } else if word == String::from_str("string") {
        Token::TString
    } else if word == String::from_str("generic") {
        Token::Generic
    } else {
        Token::Ident(word)
    }
}

/// Whether `c` may stand inside an identifier, given whether it is
/// alphanumeric.
pub fn continues_identifier(c: char, alphanumeric: bool) -> (r: bool)
    ensures
        r == continues_word_given(c, alphanumeric),
{
    alphanumeric || c == '_'
}

/// Whether `c` is of the class `class`.
pub fn is_of_class(class: CharClass, c: char) -> (r: bool)
    ensures
        r == belongs(class, c),
{
    match class {
        CharClass::Space => c == ' ' || c == '\t' || c == '\n' || c == '\x0C' || c == '\r',
        CharClass::Digit => '0' <= c && c <= '9',
        CharClass::Word => continues_identifier(c, is_alphanumeric(c)),
        CharClass::Line => c != '\r' && c != '\n',
        CharClass::Quoted => c != '"',
    }
}

impl Lexer {
    /// A tokenizer at the start of `input`.
    pub fn new(input: &str) -> (r: Lexer)
        ensures
            r@.chars == input@,
            r@.pos == 0,
    {
        Lexer { chars: chars_of(input), pos: 0 }
    }

    /// The character at which the tokenizer stands, if the text has not ended.
    pub fn current(&self) -> (r: Option<char>)
        ensures
            r == char_at(self@.chars, self@.pos),
    {
        if self.pos < self.chars.len() {
            Some(self.chars[self.pos])
        } else {
            None
        }
    }

    /// Moves past the current character and returns the one that follows it.
    /// At the end of the text nothing moves.
    pub fn advance(&mut self) -> (r: Option<char>)
        ensures
            final(self)@.chars == old(self)@.chars,
            final(self)@.pos == if old(self)@.pos < old(self)@.chars.len() {
                old(self)@.pos + 1
            } else {
                old(self)@.pos
            },
            r == char_at(final(self)@.chars, final(self)@.pos),
    {
        if self.pos < self.chars.len() {
            self.pos = self.pos + 1;
        }
        self.current()
    }

    /// Moves to the first character at or after the current one that is not
    /// white space.
    pub fn skip_whitespace(&mut self)
        ensures
            final(self)@.chars == old(self)@.chars,
            final(self)@.pos == run_end(old(self)@.chars, old(self)@.pos, CharClass::Space),
            old(self)@.pos <= final(self)@.pos <= final(self)@.chars.len(),
    {
        self.skip_run(CharClass::Space)
    }

    /// Moves past the run of characters of `class` that starts at the
    /// current character.
    pub fn skip_run(&mut self, class: CharClass)
        ensures
            final(self)@.chars == old(self)@.chars,
            final(self)@.pos == run_end(old(self)@.chars, old(self)@.pos, class),
            old(self)@.pos <= final(self)@.pos <= final(self)@.chars.len(),
    {
        let ghost start = self.pos as int;
        proof {
            use_type_invariant(&*self);
        }
        while self.pos < self.chars.len() && is_of_class(class, self.chars[self.pos])
            invariant
                self.chars == old(self).chars,
                start <= self.pos <= self.chars.len(),
                run_end(self.chars@, start, class) == run_end(
                    self.chars@,
                    self.pos as int,
                    class,
                ),
            decreases self.chars.len() - self.pos,
        {
            self.pos = self.pos + 1;
        }
    }

    /// The number that starts at the current character.
    pub fn parse_number(&mut self) -> (r: Token)
        ensures
            final(self)@.chars == old(self)@.chars,
            (r@, final(self)@.pos) == scan_number(old(self)@.chars, old(self)@.pos),
            old(self)@.pos <= final(self)@.pos <= final(self)@.chars.len(),
            (match char_at(old(self)@.chars, old(self)@.pos) {
                Some(c) => is_digit(c),
                None => false,
            }) ==> old(self)@.pos < final(self)@.pos,
    {
        proof {
            use_type_invariant(&*self);
        }
        let start = self.pos;
        self.skip_run(CharClass::Digit);
        let whole_end = self.pos;
        proof {
            lemma_run_end(self.chars@, start as int, CharClass::Digit);
            if start < self.chars@.len() && is_digit(self.chars@[start as int]) {
                lemma_run_end(self.chars@, start as int + 1, CharClass::Digit);
            }
        }
        let len = self.chars.len();
        if whole_end < len && self.chars[whole_end] == '.' && whole_end + 1 < len
            && is_of_class(CharClass::Digit, self.chars[whole_end + 1]) {
            self.pos = whole_end + 1;
            self.skip_run(CharClass::Digit);
            let end = self.pos;
            if end < len && self.chars[end] == 'u' {
                self.pos = end + 1;
                Token::Invalid('u')
            } else {
                Token::Float(text_between(&self.chars, start, end))
            }
        } else if whole_end < len && self.chars[whole_end] == 'u' {
            self.pos = whole_end + 1;
            match self.value_between(start, whole_end) {
                Some(value) => Token::UInt(value),
                None => Token::Invalid('.'),
            }
        } else {
            match self.value_between(start, whole_end) {
                Some(value) => if value <= 0x7fff_ffff_ffff_ffff {
                    Token::Int(value as i64)
                } else {
                    Token::Invalid('.')
                },
                None => Token::Invalid('.'),
            }
        }
    }

    /// The word that starts at the current character: a keyword or an
    /// identifier. At the end of the text, `EOF`.
    pub fn parse_ident(&mut self) -> (r: Token)
        ensures
            final(self)@.chars == old(self)@.chars,
            (r@, final(self)@.pos) == scan_word(old(self)@.chars, old(self)@.pos),
            old(self)@.pos <= final(self)@.pos <= final(self)@.chars.len(),
            old(self)@.pos < old(self)@.chars.len() ==> old(self)@.pos < final(self)@.pos,
    {
        proof {
            use_type_invariant(&*self);
        }
        let start = self.pos;
        if start >= self.chars.len() {
            return Token::EOF;
        }
        self.pos = start + 1;
        self.skip_run(CharClass::Word);
        let end = self.pos;
        word_to_token(text_between(&self.chars, start, end))
    }

    /// The character literal whose opening quote is the current character.
    pub fn parse_char(&mut self) -> (r: Token)
        ensures
            final(self)@.chars == old(self)@.chars,
            (r@, final(self)@.pos) == scan_char(old(self)@.chars, old(self)@.pos),
            old(self)@.pos <= final(self)@.pos <= final(self)@.chars.len(),
            old(self)@.pos < old(self)@.chars.len() ==> old(self)@.pos < final(self)@.pos,
    {
        proof {
            use_type_invariant(&*self);
        }
        let c = match self.advance() {
            Some(c) => c,
            None => {
                return Token::EOF;
            },
        };
        match self.advance() {
            Some(close) => {
                if close == '\'' {
                    self.advance();
                    Token::Char(c)
                } else {
                    Token::Invalid(close)
                }
            },
            None => Token::Invalid(c),
        }
    }

    /// The quoted text whose opening quote is the current character. At the
    /// end of the text, `EOF`.
    pub fn parse_text(&mut self) -> (r: Token)
        ensures
            final(self)@.chars == old(self)@.chars,
            (r@, final(self)@.pos) == scan_text(old(self)@.chars, old(self)@.pos),
            old(self)@.pos <= final(self)@.pos <= final(self)@.chars.len(),
            old(self)@.pos < old(self)@.chars.len() ==> old(self)@.pos < final(self)@.pos,
    {
        proof {
            use_type_invariant(&*self);
        }
        let len = self.chars.len();
        let start = self.pos;
        if start >= len {
            return Token::EOF;
        }
        self.pos = start + 1;
        self.skip_run(CharClass::Quoted);
        let end = self.pos;
        if end < len {
            self.pos = end + 1;
            Token::String(text_between(&self.chars, start + 1, end))
        } else {
            Token::Invalid('"')
        }
    }

    /// The token of one or two punctuation characters that starts with the
    /// current character `c`, if there is one.
    fn parse_punctuation(&mut self, c: char) -> (r: Option<Token>)
        requires
            old(self)@.pos < old(self)@.chars.len(),
            c == old(self)@.chars[old(self)@.pos],
        ensures
            final(self)@.chars == old(self)@.chars,
            match r {
                Some(token) => scan_punctuation(old(self)@.chars, old(self)@.pos, c) == Some(
                    (token@, final(self)@.pos),
                ) && old(self)@.pos < final(self)@.pos,
                None => scan_punctuation(old(self)@.chars, old(self)@.pos, c) is None
                    && final(self)@.pos == old(self)@.pos,
            },
    {
        let len = self.chars.len();
        let one = self.pos + 1;
        let next = if one < len {
            Some(self.chars[one])
        } else {
            None
        };
        let (token, width): (Token, usize) = if c == '.' {
            (Token::Period, 1)
        } else if c == '+' {
            (Token::Op(Op::Add), 1)
        } else if c == '-' {
            if next == Some('>') {
                (Token::Arrow, 2)
            } else {
                (Token::Op(Op::Sub), 1)
            }
        } else if c == '*' {
            (Token::Op(Op::Mul), 1)
        } else if c == '%' {
            (Token::Op(Op::Mod), 1)
        } else if c == '=' {
            if next == Some('=') {
                (Token::Op(Op::Eq), 2)
            } else {
                (Token::Invalid('='), 1)
            }
        } else if c == '!' {
            if next == Some('=') {
                (Token::Op(Op::Neq), 2)
            } else {
                (Token::Op(Op::Not), 1)
            }
        } else if c == '{' {
            (Token::LBrack, 1)
        } else if c == '}' {
            (Token::RBrack, 1)
        } else if c == '[' {
            (Token::LBrace, 1)
        } else if c == ']' {
            (Token::RBrace, 1)
        } else if c == '(' {
            (Token::LParen, 1)
        } else if c == ')' {
            (Token::RParen, 1)
        } else if c == ';' {
            (Token::SemiCol, 1)
        } else if c == ':' {
            (Token::Colon, 1)
        } else if c == ',' {
            (Token::Comma, 1)
        } else if c == '|' {
            (Token::FnTypes, 1)
        } else if c == '$' {
            (Token::Param, 1)
        } else {
            return None;
        };
        self.pos = self.pos + width;
        Some(token)
    }

    /// Skips the comment whose text starts at the current character, and
    /// gives the token that follows it.
    pub fn parse_comment(&mut self) -> (r: Token)
        ensures
            final(self)@.chars == old(self)@.chars,
            (r@, final(self)@.pos) == scan_comment(old(self)@.chars, old(self)@.pos),
            old(self)@.pos <= final(self)@.pos <= final(self)@.chars.len(),
            r@ is EOF || old(self)@.pos < final(self)@.pos,
        decreases old(self)@.chars.len() - old(self)@.pos, 1int,
    {
        self.skip_run(CharClass::Line);
        if self.pos < self.chars.len() {
            self.next_token()
        } else {
            Token::EOF
        }
    }

    /// The next token, and `EOF` once the text has ended.
    pub fn next_token(&mut self) -> (r: Token)
        ensures
            final(self)@.chars == old(self)@.chars,
            (r@, final(self)@.pos) == scan(old(self)@.chars, old(self)@.pos),
            old(self)@.pos <= final(self)@.pos <= final(self)@.chars.len(),
            r@ is EOF || old(self)@.pos < final(self)@.pos,
        decreases old(self)@.chars.len() - old(self)@.pos, 0int,
    {
        self.skip_whitespace();
        if self.pos >= self.chars.len() {
            return Token::EOF;
        }
        let c = self.chars[self.pos];
        if c == '/' {
            let one = self.pos + 1;
            if one < self.chars.len() && self.chars[one] == '/' {
                self.pos = one + 1;
                self.parse_comment()
            } else {
                self.pos = one;
                Token::Op(Op::Div)
            }
        } else if c == '\'' {
            self.parse_char()
        } else if c == '"' {
            self.parse_text()
        } else if '0' <= c && c <= '9' {
            self.parse_number()
        } else if ('a' <= c && c <= 'z') || ('A' <= c && c <= 'Z') || c == '_' {
            self.parse_ident()
        } else {
            match self.parse_punctuation(c) {
                Some(token) => token,
                None => {
                    self.pos = self.pos + 1;
                    Token::Invalid(c)
                },
            }
        }
    }

    /// All the tokens from the current character to the end of the text,
    /// without the final `EOF`.
    pub fn tokenize(&mut self) -> (r: Vec<Token>)
        ensures
            final(self)@.chars == old(self)@.chars,
            token_models(r@) == scan_all(old(self)@.chars, old(self)@.pos),
    {
        let mut tokens: Vec<Token> = Vec::new();
        let ghost chars = self.chars@;
        let ghost start = self.pos as int;
        proof {
            use_type_invariant(&*self);
        }
        loop
            invariant
                chars == old(self)@.chars,
                start == old(self)@.pos,
                self.chars@ == chars,
                start <= self.pos <= chars.len(),
                scan_all(chars, start) == token_models(tokens@) + scan_all(chars, self.pos as int),
            decreases chars.len() - self.pos,
        {
            let ghost before = self.pos as int;
            let token = self.next_token();
            match token {
                Token::EOF => {
                    proof {
                        assert(scan_all(chars, before) =~= Seq::<TokenModel>::empty());
                        assert(token_models(tokens@) + Seq::<TokenModel>::empty() =~= token_models(
                            tokens@,
                        ));
                    }
                    return tokens;
                },
                _ => {
                    let ghost earlier = tokens@;
                    tokens.push(token);
                    proof {
                        assert(token_models(tokens@) =~= token_models(earlier) + seq![token@]);
                        assert(scan_all(chars, before) == seq![token@] + scan_all(
                            chars,
                            self.pos as int,
                        ));
                        assert(token_models(earlier) + (seq![token@] + scan_all(
                            chars,
                            self.pos as int,
                        )) =~= token_models(tokens@) + scan_all(chars, self.pos as int));
                    }
                },
            }
        }
    }

    /// The value of the digits from `from` up to `to`, unless it is more than
    /// 64 bits hold.
    fn value_between(&self, from: usize, to: usize) -> (r: Option<u64>)
        requires
            from <= to <= self@.chars.len(),
            forall|i: int| from <= i < to ==> is_digit(#[trigger] self@.chars[i]),
        ensures
            match r {
                Some(v) => v == decimal_value(self@.chars.subrange(from as int, to as int)),
                None => decimal_value(self@.chars.subrange(from as int, to as int)) > u64::MAX,
            },
    {
        let mut value: u64 = 0;
        let mut i: usize = from;
        proof {
            assert(self.chars@.subrange(from as int, from as int).len() == 0);
        }
        while i < to
            invariant
                from <= i <= to <= self.chars.len(),
                forall|k: int| from <= k < to ==> is_digit(#[trigger] self.chars@[k]),
                value == decimal_value(self.chars@.subrange(from as int, i as int)),
            decreases to - i,
        {
            let c = self.chars[i];
            let d: u64 = (c as u32 - '0' as u32) as u64;
            let ghost front = self.chars@.subrange(from as int, i as int + 1);
            proof {
                assert(front.drop_last() =~= self.chars@.subrange(from as int, i as int));
                assert(front.last() == c);
                assert(d == digit_value(c));
                assert(d <= 9);
            }
            if value > (u64::MAX - d) / 10 {
                proof {
                    assert(decimal_value(front) > u64::MAX);
                    lemma_decimal_value_grows(self.chars@, from as int, i as int + 1, to as int);
                }
                return None;
            }
            value = value * 10 + d;
            i += 1;
        }
        Some(value)
    }
}

/// More digits do not write a smaller number.
pub proof fn lemma_decimal_value_grows(chars: Seq<char>, from: int, mid: int, to: int)
    requires
        0 <= from <= mid <= to <= chars.len(),
    ensures
        decimal_value(chars.subrange(from, mid)) <= decimal_value(chars.subrange(from, to)),
    decreases to - mid,
{
    if mid < to {
        lemma_decimal_value_grows(chars, from, mid, to - 1);
        assert(chars.subrange(from, to).drop_last() =~= chars.subrange(from, to - 1));
    }
}

} // verus!
