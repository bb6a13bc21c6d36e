//! Tokens of the language: the token kinds, the literal-to-kind
//! classification used by the lexer, and the operator precedence table
//! that drives the parser.

use vstd::prelude::*;

verus! {

/// Every kind of token the lexer can produce.
#[derive(Clone, Copy, PartialEq, Eq, Structural, Debug)]
pub enum TokenType {
    Eof,
    Illegal,
    Int,
    Ident,
    Assign,
    Plus,
    Minus,
    Asterisk,
    Bang,
    Slash,
    Lt,
    Gt,
    Equal,
    NotEqual,
    Comma,
    SemiColon,
    LParen,
    RParen,
    LBrace,
    RBrace,
    Let,
    Function,
    True,
    False,
    If,
    Else,
    Return,
}

/// Binding strength of a token when it appears in infix position,
/// ascending from `Lowest` to `Call`.
#[derive(Clone, Copy, PartialEq, Eq, Structural, Debug)]
pub enum Precedence {
    Lowest,
    Equals,
    LessGreater,
    Sum,
    Product,
    Prefix,
    Call,
}

/// Numeric rank of a precedence level; parsing compares levels by rank.
pub open spec fn precedence_value(p: Precedence) -> u8 {
    match p {
        Precedence::Lowest => 0,
        Precedence::Equals => 1,
        Precedence::LessGreater => 2,
        Precedence::Sum => 3,
        Precedence::Product => 4,
        Precedence::Prefix => 5,
        Precedence::Call => 6,
    }
}

impl Precedence {
    /// The numeric rank of this precedence level.
    pub fn value(self) -> (v: u8)
        ensures
            v == precedence_value(self),
    {
        match self {
            Precedence::Lowest => 0,
            Precedence::Equals => 1,
            Precedence::LessGreater => 2,
            Precedence::Sum => 3,
            Precedence::Product => 4,
            Precedence::Prefix => 5,
            Precedence::Call => 6,
        }
    }
}

/// A token: its kind together with the exact source lexeme it was made
/// from.
pub struct Token {
    pub token_type: TokenType,
    pub literal: String,
}

/// Mathematical image of a [`Token`]: the literal is a sequence of
/// characters.
pub struct TokenModel {
    pub token_type: TokenType,
    pub literal: Seq<char>,
}

impl View for Token {
    type V = TokenModel;

    open spec fn view(&self) -> TokenModel {
        TokenModel { token_type: self.token_type, literal: self.literal@ }
    }
}

impl DeepView for Token {
    type V = TokenModel;

    open spec fn deep_view(&self) -> TokenModel {
        self@
    }
}

impl Clone for Token {
    fn clone(&self) -> (res: Token)
        ensures
            res == *self,
    {
        Token { token_type: self.token_type, literal: self.literal.clone() }
    }
}

pub open spec fn is_digit_char(c: char) -> bool {
    48 <= c as u32 <= 57
}

pub open spec fn is_letter_char(c: char) -> bool {
    65 <= c as u32 <= 90 || 97 <= c as u32 <= 122
}

pub open spec fn is_alnum_char(c: char) -> bool {
    is_digit_char(c) || is_letter_char(c)
}

/// A literal that denotes an integer: one or more ASCII digits.
pub open spec fn is_int_literal(s: Seq<char>) -> bool {
    s.len() > 0 && forall|i: int| 0 <= i < s.len() ==> is_digit_char(s[i])
}

/// A literal that names an identifier: an ASCII letter followed by ASCII
/// letters and digits.
pub open spec fn is_identifier_literal(s: Seq<char>) -> bool {
    s.len() > 0 && is_letter_char(s[0]) && forall|i: int|
        0 <= i < s.len() ==> is_alnum_char(s[i])
}

/// The kind a literal is classified as: fixed lexemes (operators,
/// delimiters, brackets, reserved words, the end-of-input marker) first,
/// then integers, then identifiers; anything else is illegal.
pub open spec fn token_type_of(lit: Seq<char>) -> TokenType {
    if lit == "="@ {
        TokenType::Assign
    } else if lit == "+"@ {
        TokenType::Plus
    } else if lit == "-"@ {
        TokenType::Minus
    } else if lit == "!"@ {
        TokenType::Bang
    } else if lit == "*"@ {
        TokenType::Asterisk
    } else if lit == "/"@ {
        TokenType::Slash
    } else if lit == "<"@ {
        TokenType::Lt
    } else if lit == ">"@ {
        TokenType::Gt
    } else if lit == "=="@ {
        TokenType::Equal
    } else if lit == "!="@ {
        TokenType::NotEqual
    } else if lit == ","@ {
        TokenType::Comma
    } else if lit == ";"@ {
        TokenType::SemiColon
    } else if lit == "("@ {
        TokenType::LParen
    } else if lit == ")"@ {
        TokenType::RParen
    } else if lit == "{"@ {
        TokenType::LBrace
    } else if lit == "}"@ {
        TokenType::RBrace
    } else if lit == "let"@ {
        TokenType::Let
    } else if lit == "fn"@ {
        TokenType::Function
    } else if lit == "if"@ {
        TokenType::If
    } else if lit == "else"@ {
        TokenType::Else
    } else if lit == "return"@ {
        TokenType::Return
    } else if lit == "true"@ {
        TokenType::True
    } else if lit == "false"@ {
        TokenType::False
    } else if lit == "EOF"@ {
        TokenType::Eof
    } else if is_int_literal(lit) {
        TokenType::Int
    } else if is_identifier_literal(lit) {
        TokenType::Ident
    } else {
        TokenType::Illegal
    }
}

/// True exactly when the string equals the given lexeme.
fn str_matches(s: &String, t: &str) -> (r: bool)
    ensures
        r == (s@ == t@),
{
    *s == t.to_owned()
}

/// True exactly when the literal is one or more ASCII digits.
fn is_int(literal: &String) -> (r: bool)
    ensures
        r == is_int_literal(literal@),
{
    let n = literal.as_str().unicode_len();
    if n == 0 {
        return false;
    }
    for i in 0..n
        invariant
            n == literal@.len(),
            forall|j: int| 0 <= j < i ==> is_digit_char(literal@[j]),
    {
        let c = literal.as_str().get_char(i);
        let v = c as u32;
        if !(48 <= v && v <= 57) {
            return false;
        }
    }
    true
}

/// True exactly when the literal is an ASCII letter followed by ASCII
/// letters and digits.
fn is_identifier(literal: &String) -> (r: bool)
    ensures
        r == is_identifier_literal(literal@),
{
    let n = literal.as_str().unicode_len();
    if n == 0 {
        return false;
    }
    let first = literal.as_str().get_char(0) as u32;
    if !(65 <= first && first <= 90 || 97 <= first && first <= 122) {
        return false;
    }
    for i in 0..n
        invariant
            n == literal@.len(),
            is_letter_char(literal@[0]),
            forall|j: int| 0 <= j < i ==> is_alnum_char(literal@[j]),
    {
        let c = literal.as_str().get_char(i);
        let v = c as u32;
        if !(48 <= v && v <= 57 || 65 <= v && v <= 90 || 97 <= v && v <= 122) {
            return false;
        }
    }
    true
}

impl Token {
    /// Classify a lexeme and wrap it up as a token.
    pub fn new(literal: String) -> (t: Token)
        ensures
            t.token_type == token_type_of(literal@),
            t.literal@ == literal@,
    {
        let token_type: TokenType = if str_matches(&literal, "=") {
            TokenType::Assign
        } else if str_matches(&literal, "+") {
            TokenType::Plus
        } else if str_matches(&literal, "-") {
            TokenType::Minus
        } else if str_matches(&literal, "!") {
            TokenType::Bang
        } else if str_matches(&literal, "*") {
            TokenType::Asterisk
        } else if str_matches(&literal, "/") {
            TokenType::Slash
        } else if str_matches(&literal, "<") {
            TokenType::Lt
        } else if str_matches(&literal, ">") {
            TokenType::Gt
        } else if str_matches(&literal, "==") {
            TokenType::Equal
        } else if str_matches(&literal, "!=") {
            TokenType::NotEqual
        } else if str_matches(&literal, ",") {
            TokenType::Comma
        } else if str_matches(&literal, ";") {
            TokenType::SemiColon
        } else if str_matches(&literal, "(") {
            TokenType::LParen
        } else if str_matches(&literal, ")") {
            TokenType::RParen
        } else if str_matches(&literal, "{") {
            TokenType::LBrace
        } else if str_matches(&literal, "}") {
            TokenType::RBrace
        } else if str_matches(&literal, "let") {
            TokenType::Let
        } else if str_matches(&literal, "fn") {
            TokenType::Function
        } else if str_matches(&literal, "if") {
            TokenType::If
        } else if str_matches(&literal, "else") {
            TokenType::Else
        } else if str_matches(&literal, "return") {
            TokenType::Return
        } else if str_matches(&literal, "true") {
            TokenType::True
        } else if str_matches(&literal, "false") {
            TokenType::False
        } else if str_matches(&literal, "EOF") {
            TokenType::Eof
        } else if is_int(&literal) {
            TokenType::Int
        } else if is_identifier(&literal) {
            TokenType::Ident
        } else {
            TokenType::Illegal
        };
        Token { token_type, literal }
    }

    /// True exactly when this token is a binary operator.
    pub fn is_operator(&self) -> (r: bool)
        ensures
            r == is_operator_kind(self.token_type),
    {
        self.token_type == TokenType::Plus || self.token_type == TokenType::Minus
            || self.token_type == TokenType::Asterisk || self.token_type == TokenType::Slash
            || self.token_type == TokenType::Lt || self.token_type == TokenType::Gt
            || self.token_type == TokenType::Equal || self.token_type == TokenType::NotEqual
    }

    /// The precedence this token carries in infix position.
    pub fn get_precedence(&self) -> (p: Precedence)
        ensures
            p == precedence_of(self.token_type),
    {
        match self.token_type {
            TokenType::Equal => Precedence::Equals,
            TokenType::NotEqual => Precedence::Equals,
            TokenType::Gt => Precedence::LessGreater,
            TokenType::Lt => Precedence::LessGreater,
            TokenType::Plus => Precedence::Sum,
            TokenType::Minus => Precedence::Sum,
            TokenType::Slash => Precedence::Product,
            TokenType::Asterisk => Precedence::Product,
            TokenType::LParen => Precedence::Call,
            _ => Precedence::Lowest,
        }
    }
}

/// The binary operators of the language.
pub open spec fn is_operator_kind(t: TokenType) -> bool {
    t == TokenType::Plus || t == TokenType::Minus || t == TokenType::Asterisk
        || t == TokenType::Slash || t == TokenType::Lt || t == TokenType::Gt
        || t == TokenType::Equal || t == TokenType::NotEqual
}

/// The precedence table: equality binds weakest among the operators, then
/// comparison, then additive, then multiplicative; a left parenthesis in
/// infix position means function application and binds strongest.
pub open spec fn precedence_of(t: TokenType) -> Precedence {
    match t {
        TokenType::Equal => Precedence::Equals,
        TokenType::NotEqual => Precedence::Equals,
        TokenType::Gt => Precedence::LessGreater,
        TokenType::Lt => Precedence::LessGreater,
        TokenType::Plus => Precedence::Sum,
        TokenType::Minus => Precedence::Sum,
        TokenType::Slash => Precedence::Product,
        TokenType::Asterisk => Precedence::Product,
        TokenType::LParen => Precedence::Call,
        _ => Precedence::Lowest,
    }
}

/// How a token renders in diagnostics: operators and delimiters as their
/// lexemes, reserved words capitalized, integers and identifiers as their
/// literals, and illegal tokens wrapped in `Illegal(...)`.
pub open spec fn token_display(t: TokenModel) -> Seq<char> {
    match t.token_type {
        TokenType::Assign => "="@,
        TokenType::Plus => "+"@,
        TokenType::Minus => "-"@,
        TokenType::Bang => "!"@,
        TokenType::Asterisk => "*"@,
        TokenType::Slash => "/"@,
        TokenType::Lt => "<"@,
        TokenType::Gt => ">"@,
        TokenType::Equal => "=="@,
        TokenType::NotEqual => "!="@,
        TokenType::SemiColon => ";"@,
        TokenType::Comma => ","@,
        TokenType::LParen => "("@,
        TokenType::RParen => ")"@,
        TokenType::LBrace => "{"@,
        TokenType::RBrace => "}"@,
        TokenType::Let => "Let"@,
        TokenType::Function => "Func"@,
        TokenType::If => "If"@,
        TokenType::Else => "Else"@,
        TokenType::Return => "Return"@,
        TokenType::True => "True"@,
        TokenType::False => "False"@,
        TokenType::Int => t.literal,
        TokenType::Ident => t.literal,
        TokenType::Eof => "Eof"@,
        TokenType::Illegal => "Illegal("@ + t.literal + ")"@,
    }
}

impl Token {
    /// Render this token for diagnostics.
    pub fn to_string(&self) -> (r: String)
        ensures
            r@ == token_display(self@),
    {
        match self.token_type {
            TokenType::Assign => "=".to_owned(),
            TokenType::Plus => "+".to_owned(),
            TokenType::Minus => "-".to_owned(),
            TokenType::Bang => "!".to_owned(),
            TokenType::Asterisk => "*".to_owned(),
            TokenType::Slash => "/".to_owned(),
            TokenType::Lt => "<".to_owned(),
            TokenType::Gt => ">".to_owned(),
            TokenType::Equal => "==".to_owned(),
            TokenType::NotEqual => "!=".to_owned(),
            TokenType::SemiColon => ";".to_owned(),
            TokenType::Comma => ",".to_owned(),
            TokenType::LParen => "(".to_owned(),
            TokenType::RParen => ")".to_owned(),
            TokenType::LBrace => "{".to_owned(),
            TokenType::RBrace => "}".to_owned(),
            TokenType::Let => "Let".to_owned(),
            TokenType::Function => "Func".to_owned(),
            TokenType::If => "If".to_owned(),
            TokenType::Else => "Else".to_owned(),
            TokenType::Return => "Return".to_owned(),
            TokenType::True => "True".to_owned(),
            TokenType::False => "False".to_owned(),
            TokenType::Int => self.literal.clone(),
            TokenType::Ident => self.literal.clone(),
            TokenType::Eof => "Eof".to_owned(),
            TokenType::Illegal => {
                let m = String::from_str("Illegal(");
                let m = m.concat(self.literal.as_str());
                let m = m.concat(")");
                proof {
                    assert(m@ =~= "Illegal("@ + self.literal@ + ")"@);
                }
                m
            },
        }
    }
}

/// The fixed lexeme of a token kind, for the kinds whose lexeme the
/// language fixes; integers, identifiers and illegal tokens have none.
pub open spec fn fixed_literal(k: TokenType) -> Option<Seq<char>> {
    match k {
        TokenType::Eof => Some("EOF"@),
        TokenType::Illegal => None,
        TokenType::Int => None,
        TokenType::Ident => None,
        TokenType::Assign => Some("="@),
        TokenType::Plus => Some("+"@),
        TokenType::Minus => Some("-"@),
        TokenType::Asterisk => Some("*"@),
        TokenType::Bang => Some("!"@),
        TokenType::Slash => Some("/"@),
        TokenType::Lt => Some("<"@),
        TokenType::Gt => Some(">"@),
        TokenType::Equal => Some("=="@),
        TokenType::NotEqual => Some("!="@),
        TokenType::Comma => Some(","@),
        TokenType::SemiColon => Some(";"@),
        TokenType::LParen => Some("("@),
        TokenType::RParen => Some(")"@),
        TokenType::LBrace => Some("{"@),
        TokenType::RBrace => Some("}"@),
        TokenType::Let => Some("let"@),
        TokenType::Function => Some("fn"@),
        TokenType::True => Some("true"@),
        TokenType::False => Some("false"@),
        TokenType::If => Some("if"@),
        TokenType::Else => Some("else"@),
        TokenType::Return => Some("return"@),
    }
}

/// Classification round-trips the kind: a token built from the fixed
/// lexeme of a kind gets that kind back.
pub proof fn lemma_token_new_round_trip(k: TokenType)
    ensures
        fixed_literal(k) matches Some(lit) ==> token_type_of(lit) == k,
{
    reveal_strlit("=");
    reveal_strlit("+");
    reveal_strlit("-");
    reveal_strlit("!");
    reveal_strlit("*");
    reveal_strlit("/");
    reveal_strlit("<");
    reveal_strlit(">");
    reveal_strlit("==");
    reveal_strlit("!=");
    reveal_strlit(",");
    reveal_strlit(";");
    reveal_strlit("(");
    reveal_strlit(")");
    reveal_strlit("{");
    reveal_strlit("}");
    reveal_strlit("let");
    reveal_strlit("fn");
    reveal_strlit("if");
    reveal_strlit("else");
    reveal_strlit("return");
    reveal_strlit("true");
    reveal_strlit("false");
    reveal_strlit("EOF");
    assert("="@[0] == '=');
    assert("+"@[0] == '+');
    assert("-"@[0] == '-');
    assert("!"@[0] == '!');
    assert("*"@[0] == '*');
    assert("/"@[0] == '/');
    assert("<"@[0] == '<');
    assert(">"@[0] == '>');
    assert("=="@.len() == 2);
    assert("!="@.len() == 2);
    assert("="@.len() == 1);
    assert("!"@.len() == 1);
    assert("=="@[1] == '=');
    assert("!="@[0] == '!');
    assert("!="@[1] == '=');
    assert(","@[0] == ',');
    assert(";"@[0] == ';');
    assert("("@[0] == '(');
    assert(")"@[0] == ')');
    assert("{"@[0] == '{');
    assert("}"@[0] == '}');
    assert("let"@[0] == 'l');
    assert("fn"@[0] == 'f');
    assert("if"@[0] == 'i');
    assert("else"@[0] == 'e');
    assert("return"@[0] == 'r');
    assert("true"@[0] == 't');
    assert("false"@[0] == 'f');
    assert("false"@[1] == 'a');
    assert("fn"@[1] == 'n');
    assert("if"@[1] == 'f');
    assert("EOF"@[0] == 'E');
    match k {
        TokenType::Eof => assert(token_type_of("EOF"@) == TokenType::Eof),
        TokenType::Illegal => (),
        TokenType::Int => (),
        TokenType::Ident => (),
        TokenType::Assign => assert(token_type_of("="@) == TokenType::Assign),
        TokenType::Plus => assert(token_type_of("+"@) == TokenType::Plus),
        TokenType::Minus => assert(token_type_of("-"@) == TokenType::Minus),
        TokenType::Asterisk => assert(token_type_of("*"@) == TokenType::Asterisk),
        TokenType::Bang => assert(token_type_of("!"@) == TokenType::Bang),
        TokenType::Slash => assert(token_type_of("/"@) == TokenType::Slash),
        TokenType::Lt => assert(token_type_of("<"@) == TokenType::Lt),
        TokenType::Gt => assert(token_type_of(">"@) == TokenType::Gt),
        TokenType::Equal => assert(token_type_of("=="@) == TokenType::Equal),
        TokenType::NotEqual => assert(token_type_of("!="@) == TokenType::NotEqual),
        TokenType::Comma => assert(token_type_of(","@) == TokenType::Comma),
        TokenType::SemiColon => assert(token_type_of(";"@) == TokenType::SemiColon),
        TokenType::LParen => assert(token_type_of("("@) == TokenType::LParen),
        TokenType::RParen => assert(token_type_of(")"@) == TokenType::RParen),
        TokenType::LBrace => assert(token_type_of("{"@) == TokenType::LBrace),
        TokenType::RBrace => assert(token_type_of("}"@) == TokenType::RBrace),
        TokenType::Let => assert(token_type_of("let"@) == TokenType::Let),
        TokenType::Function => assert(token_type_of("fn"@) == TokenType::Function),
        TokenType::True => assert(token_type_of("true"@) == TokenType::True),
        TokenType::False => assert(token_type_of("false"@) == TokenType::False),
        TokenType::If => assert(token_type_of("if"@) == TokenType::If),
        TokenType::Else => assert(token_type_of("else"@) == TokenType::Else),
        TokenType::Return => assert(token_type_of("return"@) == TokenType::Return),
    }
}

} // verus!
