use exprlang::lexer::{Lexer, Op, Token};

fn float_of(token: Token) -> f64 {
    match token {
        Token::Float(text) => text.parse::<f64>().unwrap(),
        other => panic!("expected a float, found {:?}", other),
    }
}

#[test]
fn test_identifier() {
    let mut lex = Lexer::new("a asdf c_123 __ASDF");
    assert_eq!(Token::Ident("a".into()), lex.next_token());
    assert_eq!(Token::Ident("asdf".into()), lex.next_token());
    assert_eq!(Token::Ident("c_123".into()), lex.next_token());
    assert_eq!(Token::Ident("__ASDF".into()), lex.next_token());
    assert_eq!(Token::EOF, lex.next_token());
}

#[test]
fn test_number() {
    let mut lex = Lexer::new("1 123 123.234 345u 222.222.");
    assert_eq!(Token::Int(1), lex.next_token());
    assert_eq!(Token::Int(123), lex.next_token());
    assert_eq!(123.234, float_of(lex.next_token()));
    assert_eq!(Token::UInt(345), lex.next_token());
    assert_eq!(222.222, float_of(lex.next_token()));
    assert_eq!(Token::Period, lex.next_token());
    assert_eq!(Token::EOF, lex.next_token());
}

#[test]
fn test_comment() {
    let mut lex = Lexer::new("asdf //1 123 123.234 345u 222.222.");
    assert_eq!(Token::Ident("asdf".into()), lex.next_token());
    assert_eq!(Token::EOF, lex.next_token());
}

#[test]
fn test_char() {
    let mut lex = Lexer::new("asdf \'a\' 234");
    assert_eq!(Token::Ident("asdf".into()), lex.next_token());
    assert_eq!(Token::Char('a'), lex.next_token());
    assert_eq!(Token::Int(234), lex.next_token());
    assert_eq!(Token::EOF, lex.next_token());
}

#[test]
fn test_ops() {
    let mut lex = Lexer::new("asdf+1 -(d *2.2) / 'a'");
    assert_eq!(Token::Ident("asdf".into()), lex.next_token());
    assert_eq!(Token::Op(Op::Add), lex.next_token());
    assert_eq!(Token::Int(1), lex.next_token());
    assert_eq!(Token::Op(Op::Sub), lex.next_token());
    assert_eq!(Token::LParen, lex.next_token());
    assert_eq!(Token::Ident("d".into()), lex.next_token());
    assert_eq!(Token::Op(Op::Mul), lex.next_token());
    assert_eq!(2.2, float_of(lex.next_token()));
    assert_eq!(Token::RParen, lex.next_token());
    assert_eq!(Token::Op(Op::Div), lex.next_token());
    assert_eq!(Token::Char('a'), lex.next_token());
    assert_eq!(Token::EOF, lex.next_token());
}

#[test]
fn test_if() {
    let mut lex = Lexer::new("if asdf { 123 } else { 234 }");
    assert_eq!(Token::If, lex.next_token());
    assert_eq!(Token::Ident("asdf".into()), lex.next_token());
    assert_eq!(Token::LBrack, lex.next_token());
    assert_eq!(Token::Int(123), lex.next_token());
    assert_eq!(Token::RBrack, lex.next_token());
    assert_eq!(Token::Else, lex.next_token());
    assert_eq!(Token::LBrack, lex.next_token());
    assert_eq!(Token::Int(234), lex.next_token());
    assert_eq!(Token::RBrack, lex.next_token());
    assert_eq!(Token::EOF, lex.next_token());
}

#[test]
fn a_point_belongs_to_a_number_only_before_a_digit() {
    let mut lex = Lexer::new("5.as(x); 1.5.as(y)");
    assert_eq!(Token::Int(5), lex.next_token());
    assert_eq!(Token::Period, lex.next_token());
    assert_eq!(Token::Ident("as".into()), lex.next_token());
    assert_eq!(Token::LParen, lex.next_token());
    assert_eq!(Token::Ident("x".into()), lex.next_token());
    assert_eq!(Token::RParen, lex.next_token());
    assert_eq!(Token::SemiCol, lex.next_token());
    assert_eq!(Token::Float("1.5".into()), lex.next_token());
    assert_eq!(Token::Period, lex.next_token());
}

#[test]
fn punctuation_and_keywords() {
    let mut lex = Lexer::new("-> - == = != ! % : , | $ [ ] true false none bool int uint char float string generic \"a b\"");
    let expected = vec![
        Token::Arrow,
        Token::Op(Op::Sub),
        Token::Op(Op::Eq),
        Token::Invalid('='),
        Token::Op(Op::Neq),
        Token::Op(Op::Not),
        Token::Op(Op::Mod),
        Token::Colon,
        Token::Comma,
        Token::FnTypes,
        Token::Param,
        Token::LBrace,
        Token::RBrace,
        Token::Bool(true),
        Token::Bool(false),
        Token::TNone,
        Token::TBool,
        Token::TInt,
        Token::TUint,
        Token::TChar,
        Token::TFloat,
        Token::TString,
        Token::Generic,
        Token::String("a b".into()),
    ];
    assert_eq!(lex.tokenize(), expected);
    assert_eq!(Token::EOF, lex.next_token());
}

#[test]
fn numbers_that_do_not_fit_are_invalid() {
    let mut lex = Lexer::new("9223372036854775807 9223372036854775808 18446744073709551615u 18446744073709551616u 99999999999999999999999 1.5u");
    assert_eq!(Token::Int(i64::MAX), lex.next_token());
    assert_eq!(Token::Invalid('.'), lex.next_token());
    assert_eq!(Token::UInt(u64::MAX), lex.next_token());
    assert_eq!(Token::Invalid('.'), lex.next_token());
    assert_eq!(Token::Invalid('.'), lex.next_token());
    assert_eq!(Token::Invalid('u'), lex.next_token());
    assert_eq!(Token::EOF, lex.next_token());
}

#[test]
fn identifiers_may_hold_letters_of_any_script() {
    let mut lex = Lexer::new("a\u{e9}\u{3b2}1 \u{e9}");
    assert_eq!(Token::Ident("a\u{e9}\u{3b2}1".into()), lex.next_token());
    assert_eq!(Token::Invalid('\u{e9}'), lex.next_token());
    assert_eq!(Token::EOF, lex.next_token());
}

#[test]
fn broken_character_and_text_literals() {
    let mut lex = Lexer::new("'ab \"open");
    assert_eq!(Token::Invalid('b'), lex.next_token());
    assert_eq!(Token::Ident("b".into()), lex.next_token());
    assert_eq!(Token::Invalid('"'), lex.next_token());
    assert_eq!(Token::EOF, lex.next_token());
    let mut lex = Lexer::new("'");
    assert_eq!(Token::EOF, lex.next_token());
    let mut lex = Lexer::new("'a");
    assert_eq!(Token::Invalid('a'), lex.next_token());
}

#[test]
fn a_comment_ends_with_its_line() {
    let mut lex = Lexer::new("a // b\nc / d");
    assert_eq!(Token::Ident("a".into()), lex.next_token());
    assert_eq!(Token::Ident("c".into()), lex.next_token());
    assert_eq!(Token::Op(Op::Div), lex.next_token());
    assert_eq!(Token::Ident("d".into()), lex.next_token());
    assert_eq!(Token::EOF, lex.next_token());
}

#[test]
fn advance_and_skip_whitespace_move_through_the_text() {
    let mut lex = Lexer::new(" \t\r\n\u{c}ab");
    lex.skip_whitespace();
    assert_eq!(lex.current(), Some('a'));
    assert_eq!(lex.advance(), Some('b'));
    assert_eq!(lex.advance(), None);
    assert_eq!(lex.advance(), None);
}
