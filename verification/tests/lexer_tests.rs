use monkey::lexer::Lexer;
use monkey::token::TokenType;

fn kinds_of(src: &str) -> Vec<TokenType> {
    let mut lexer = Lexer::new(src);
    lexer.tokenize().iter().map(|t| t.token_type).collect()
}

fn literals_of(src: &str) -> Vec<String> {
    let mut lexer = Lexer::new(src);
    lexer.tokenize().iter().map(|t| t.literal.clone()).collect()
}

#[test]
fn empty_input_yields_eof_at_once() {
    assert_eq!(kinds_of(""), vec![TokenType::Eof]);
}

#[test]
fn whitespace_only_input_yields_eof() {
    assert_eq!(kinds_of("  \t\r\n  "), vec![TokenType::Eof]);
}

#[test]
fn let_statement_tokens() {
    assert_eq!(
        kinds_of("let x = 5;"),
        vec![
            TokenType::Let,
            TokenType::Ident,
            TokenType::Assign,
            TokenType::Int,
            TokenType::SemiColon,
            TokenType::Eof,
        ]
    );
    assert_eq!(literals_of("let x = 5;"), vec!["let", "x", "=", "5", ";", "EOF"]);
}

#[test]
fn two_character_operators_lex_as_one_token() {
    assert_eq!(
        kinds_of("a == b != c"),
        vec![
            TokenType::Ident,
            TokenType::Equal,
            TokenType::Ident,
            TokenType::NotEqual,
            TokenType::Ident,
            TokenType::Eof,
        ]
    );
    assert_eq!(literals_of("= == ! !="), vec!["=", "==", "!", "!=", "EOF"]);
}

#[test]
fn assignment_followed_by_end_is_single_equal() {
    assert_eq!(kinds_of("="), vec![TokenType::Assign, TokenType::Eof]);
    assert_eq!(kinds_of("!"), vec![TokenType::Bang, TokenType::Eof]);
}

#[test]
fn alphanumeric_words_lex_greedily() {
    assert_eq!(literals_of("foo123 123foo"), vec!["foo123", "123foo", "EOF"]);
    assert_eq!(
        kinds_of("foo123 123foo"),
        vec![TokenType::Ident, TokenType::Illegal, TokenType::Eof]
    );
}

#[test]
fn unknown_characters_become_illegal_tokens() {
    assert_eq!(kinds_of("@"), vec![TokenType::Illegal, TokenType::Eof]);
    assert_eq!(literals_of("#"), vec!["#", "EOF"]);
}

#[test]
fn no_whitespace_needed_between_punctuation() {
    assert_eq!(
        kinds_of("(1+2)*3;"),
        vec![
            TokenType::LParen,
            TokenType::Int,
            TokenType::Plus,
            TokenType::Int,
            TokenType::RParen,
            TokenType::Asterisk,
            TokenType::Int,
            TokenType::SemiColon,
            TokenType::Eof,
        ]
    );
}

#[test]
fn next_token_is_idempotent_at_end() {
    let mut lexer = Lexer::new("x");
    let first = lexer.next_token().unwrap();
    assert_eq!(first.token_type, TokenType::Ident);
    let second = lexer.next_token().unwrap();
    assert_eq!(second.token_type, TokenType::Eof);
    let third = lexer.next_token().unwrap();
    assert_eq!(third.token_type, TokenType::Eof);
}

#[test]
fn the_word_eof_lexes_as_the_end_marker_kind() {
    assert_eq!(kinds_of("EOF x"), vec![TokenType::Eof]);
}
