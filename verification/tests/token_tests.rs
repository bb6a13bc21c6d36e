use monkey::token::{Precedence, Token, TokenType};

fn kind_of(lit: &str) -> TokenType {
    Token::new(lit.to_owned()).token_type
}

#[test]
fn fixed_literals_round_trip_their_kind() {
    assert_eq!(kind_of("="), TokenType::Assign);
    assert_eq!(kind_of("+"), TokenType::Plus);
    assert_eq!(kind_of("-"), TokenType::Minus);
    assert_eq!(kind_of("!"), TokenType::Bang);
    assert_eq!(kind_of("*"), TokenType::Asterisk);
    assert_eq!(kind_of("/"), TokenType::Slash);
    assert_eq!(kind_of("<"), TokenType::Lt);
    assert_eq!(kind_of(">"), TokenType::Gt);
    assert_eq!(kind_of("=="), TokenType::Equal);
    assert_eq!(kind_of("!="), TokenType::NotEqual);
    assert_eq!(kind_of(","), TokenType::Comma);
    assert_eq!(kind_of(";"), TokenType::SemiColon);
    assert_eq!(kind_of("("), TokenType::LParen);
    assert_eq!(kind_of(")"), TokenType::RParen);
    assert_eq!(kind_of("{"), TokenType::LBrace);
    assert_eq!(kind_of("}"), TokenType::RBrace);
    assert_eq!(kind_of("let"), TokenType::Let);
    assert_eq!(kind_of("fn"), TokenType::Function);
    assert_eq!(kind_of("if"), TokenType::If);
    assert_eq!(kind_of("else"), TokenType::Else);
    assert_eq!(kind_of("return"), TokenType::Return);
    assert_eq!(kind_of("true"), TokenType::True);
    assert_eq!(kind_of("false"), TokenType::False);
    assert_eq!(kind_of("EOF"), TokenType::Eof);
}

#[test]
fn numbers_identifiers_and_junk_classify() {
    assert_eq!(kind_of("0"), TokenType::Int);
    assert_eq!(kind_of("12345"), TokenType::Int);
    assert_eq!(kind_of("x"), TokenType::Ident);
    assert_eq!(kind_of("foo123"), TokenType::Ident);
    assert_eq!(kind_of("123foo"), TokenType::Illegal);
    assert_eq!(kind_of("@"), TokenType::Illegal);
    assert_eq!(kind_of(""), TokenType::Illegal);
}

#[test]
fn token_keeps_its_literal() {
    let t = Token::new("foo123".to_owned());
    assert_eq!(t.literal, "foo123");
}

#[test]
fn operator_tokens_are_operators() {
    assert!(Token::new("+".to_owned()).is_operator());
    assert!(Token::new("==".to_owned()).is_operator());
    assert!(!Token::new("(".to_owned()).is_operator());
    assert!(!Token::new("let".to_owned()).is_operator());
    assert!(!Token::new("x".to_owned()).is_operator());
}

#[test]
fn precedence_table_is_ascending() {
    let eq = Token::new("==".to_owned()).get_precedence();
    let ne = Token::new("!=".to_owned()).get_precedence();
    let lt = Token::new("<".to_owned()).get_precedence();
    let gt = Token::new(">".to_owned()).get_precedence();
    let plus = Token::new("+".to_owned()).get_precedence();
    let minus = Token::new("-".to_owned()).get_precedence();
    let star = Token::new("*".to_owned()).get_precedence();
    let slash = Token::new("/".to_owned()).get_precedence();
    let call = Token::new("(".to_owned()).get_precedence();
    let none = Token::new(";".to_owned()).get_precedence();
    assert_eq!(eq, Precedence::Equals);
    assert_eq!(ne, Precedence::Equals);
    assert_eq!(lt, Precedence::LessGreater);
    assert_eq!(gt, Precedence::LessGreater);
    assert_eq!(plus, Precedence::Sum);
    assert_eq!(minus, Precedence::Sum);
    assert_eq!(star, Precedence::Product);
    assert_eq!(slash, Precedence::Product);
    assert_eq!(call, Precedence::Call);
    assert_eq!(none, Precedence::Lowest);
    assert!(none.value() < eq.value());
    assert!(eq.value() < lt.value());
    assert!(lt.value() < plus.value());
    assert!(plus.value() < star.value());
    assert!(star.value() < Precedence::Prefix.value());
    assert!(Precedence::Prefix.value() < call.value());
}

#[test]
fn token_display_forms() {
    assert_eq!(Token::new("+".to_owned()).to_string(), "+");
    assert_eq!(Token::new("let".to_owned()).to_string(), "Let");
    assert_eq!(Token::new("fn".to_owned()).to_string(), "Func");
    assert_eq!(Token::new("42".to_owned()).to_string(), "42");
    assert_eq!(Token::new("abc".to_owned()).to_string(), "abc");
    assert_eq!(Token::new("12ab".to_owned()).to_string(), "Illegal(12ab)");
    assert_eq!(Token::new("EOF".to_owned()).to_string(), "Eof");
}
