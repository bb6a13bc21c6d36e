//! The lexer: splits source text into tokens on demand. Unknown lexemes
//! become `Illegal` tokens; past the end of the input every call yields
//! `Eof` tokens.

use vstd::prelude::*;

use crate::token::{
    Token, TokenModel, TokenType, is_alnum_char, token_type_of, lemma_token_new_round_trip,
};

verus! {

/// The whitespace characters the lexer skips.
pub open spec fn is_whitespace_char(c: char) -> bool {
    c == ' ' || c == '\t' || c == '\n' || c == '\r'
}

/// First position at or after `pos` that does not hold whitespace.
pub open spec fn skip_ws_from(s: Seq<char>, pos: int) -> int
    decreases s.len() - pos,
{
    if 0 <= pos < s.len() && is_whitespace_char(s[pos]) {
        skip_ws_from(s, pos + 1)
    } else {
        pos
    }
}

/// First position at or after `pos` that does not hold an ASCII letter or
/// digit.
pub open spec fn alnum_end(s: Seq<char>, pos: int) -> int
    decreases s.len() - pos,
{
    if 0 <= pos < s.len() && is_alnum_char(s[pos]) {
        alnum_end(s, pos + 1)
    } else {
        pos
    }
}

/// The next lexeme starting at `pos`, and the scanning position after it:
/// skip whitespace; at the end of input there is none; a letter or digit
/// starts a greedy run of letters and digits; `==` and `!=` are read as
/// two-character lexemes; any other character stands alone.
pub open spec fn next_literal(s: Seq<char>, pos: int) -> (Option<Seq<char>>, int) {
    let p = skip_ws_from(s, pos);
    if p >= s.len() {
        (None, p)
    } else if is_alnum_char(s[p]) {
        let e = alnum_end(s, p + 1);
        (Some(s.subrange(p, e)), e)
    } else if s[p] == '=' && p + 1 < s.len() && s[p + 1] == '=' {
        (Some(s.subrange(p, p + 2)), p + 2)
    } else if s[p] == '!' && p + 1 < s.len() && s[p + 1] == '=' {
        (Some(s.subrange(p, p + 2)), p + 2)
    } else {
        (Some(s.subrange(p, p + 1)), p + 1)
    }
}

/// The next token starting at `pos`, and the scanning position after it:
/// the classified next lexeme, or an `Eof` token at the end of the input.
pub open spec fn next_token_spec(s: Seq<char>, pos: int) -> (TokenModel, int) {
    let (lit, p) = next_literal(s, pos);
    match lit {
        Some(l) => (TokenModel { token_type: token_type_of(l), literal: l }, p),
        None => (TokenModel { token_type: TokenType::Eof, literal: "EOF"@ }, p),
    }
}

pub proof fn lemma_skip_ws_bounds(s: Seq<char>, pos: int)
    requires
        0 <= pos <= s.len(),
    ensures
        pos <= skip_ws_from(s, pos) <= s.len(),
    decreases s.len() - pos,
{
    if 0 <= pos < s.len() && is_whitespace_char(s[pos]) {
        lemma_skip_ws_bounds(s, pos + 1);
    }
}

pub proof fn lemma_alnum_end_bounds(s: Seq<char>, pos: int)
    requires
        0 <= pos <= s.len(),
    ensures
        pos <= alnum_end(s, pos) <= s.len(),
    decreases s.len() - pos,
{
    if 0 <= pos < s.len() && is_alnum_char(s[pos]) {
        lemma_alnum_end_bounds(s, pos + 1);
    }
}

/// Scanning makes progress: the position after a lexeme lies within the
/// input, and strictly beyond `pos` whenever a lexeme was found.
pub proof fn lemma_next_literal_bounds(s: Seq<char>, pos: int)
    requires
        0 <= pos <= s.len(),
    ensures
        pos <= next_literal(s, pos).1 <= s.len(),
        next_literal(s, pos).0 is Some ==> next_literal(s, pos).1 > pos,
        next_literal(s, pos).0 is None ==> next_literal(s, pos).1 == skip_ws_from(s, pos),
{
    lemma_skip_ws_bounds(s, pos);
    let p = skip_ws_from(s, pos);
    if p < s.len() && is_alnum_char(s[p]) {
        lemma_alnum_end_bounds(s, p + 1);
    }
}

/// The token stream from `pos` on: one token per lexeme, ending with the
/// first `Eof`-kinded token.
pub open spec fn tokenize_from(s: Seq<char>, pos: int) -> Seq<TokenModel>
    decreases s.len() - pos,
{
    let (t, p) = next_token_spec(s, pos);
    if t.token_type == TokenType::Eof || pos >= s.len() || pos < 0 {
        seq![t]
    } else {
        let next = if p < pos + 1 {
            pos + 1
        } else if p > s.len() {
            s.len() as int
        } else {
            p
        };
        seq![t] + tokenize_from(s, next)
    }
}

/// The token stream is never empty, ends with its only `Eof` token, and
/// the tokens before it are not `Eof`.
pub proof fn lemma_tokenize_from_shape(s: Seq<char>, pos: int)
    requires
        0 <= pos,
    ensures
        tokenize_from(s, pos).len() >= 1,
        tokenize_from(s, pos).last().token_type == TokenType::Eof,
        tokenize_from(s, pos).last().literal == "EOF"@,
        forall|i: int|
            0 <= i < tokenize_from(s, pos).len() - 1 ==> tokenize_from(s, pos)[i].token_type
                != TokenType::Eof,
    decreases s.len() - pos,
{
    let (t, p) = next_token_spec(s, pos);
    if !(t.token_type == TokenType::Eof || pos >= s.len() || pos < 0) {
        let next = if p < pos + 1 {
            pos + 1
        } else if p > s.len() {
            s.len() as int
        } else {
            p
        };
        lemma_tokenize_from_shape(s, next);
    }
}

/// Mathematical image of a [`Lexer`]: the input characters and the
/// scanning position.
pub struct LexerModel {
    pub input: Seq<char>,
    pub position: int,
}

/// A scanning cursor over a source string. The position points at the
/// current character; a position past the last character means the end of
/// the input has been reached.
pub struct Lexer {
    input: String,
    position: usize,
}

impl View for Lexer {
    type V = LexerModel;

    closed spec fn view(&self) -> LexerModel {
        LexerModel { input: self.input@, position: self.position as int }
    }
}

fn is_whitespace(c: char) -> (r: bool)
    ensures
        r == is_whitespace_char(c),
{
    c == ' ' || c == '\t' || c == '\n' || c == '\r'
}

fn is_alnum(c: char) -> (r: bool)
    ensures
        r == is_alnum_char(c),
{
    let v = c as u32;
    48 <= v && v <= 57 || 65 <= v && v <= 90 || 97 <= v && v <= 122
}

impl Lexer {
    /// The scanning position never runs past the end of the input.
    pub open spec fn wf(&self) -> bool {
        0 <= self@.position <= self@.input.len()
    }

    /// A lexer at the start of the given source text.
    pub fn new(input: &str) -> (l: Lexer)
        ensures
            l.wf(),
            l@.input == input@,
            l@.position == 0,
    {
        Lexer { input: input.to_owned(), position: 0 }
    }

    /// The character after the current one, if any.
    fn peak_char(&self) -> (r: Option<char>)
        requires
            self.wf(),
        ensures
            r == if self@.position + 1 < self@.input.len() {
                Some(self@.input[self@.position + 1])
            } else {
                Option::<char>::None
            },
    {
        let n = self.input.as_str().unicode_len();
        if self.position < n && self.position + 1 < n {
            Some(self.input.as_str().get_char(self.position + 1))
        } else {
            None
        }
    }

    /// Step to the next character and return it; at the end of the input
    /// the cursor moves onto the end marker position and nothing is
    /// returned.
    fn read_char(&mut self) -> (r: Option<char>)
        requires
            old(self).wf(),
        ensures
            final(self).wf(),
            final(self)@.input == old(self)@.input,
            final(self)@.position == if old(self)@.position < old(self)@.input.len() {
                old(self)@.position + 1
            } else {
                old(self)@.position
            },
            r == if final(self)@.position < final(self)@.input.len() {
                Some(final(self)@.input[final(self)@.position])
            } else {
                Option::<char>::None
            },
    {
        let n = self.input.as_str().unicode_len();
        if self.position < n {
            self.position = self.position + 1;
        }
        if self.position < n {
            Some(self.input.as_str().get_char(self.position))
        } else {
            None
        }
    }

    /// Move the cursor forward until the current character is not
    /// whitespace.
    fn skip_whitespace(&mut self)
        requires
            old(self).wf(),
        ensures
            final(self).wf(),
            final(self)@.input == old(self)@.input,
            final(self)@.position == skip_ws_from(old(self)@.input, old(self)@.position),
    {
        let ghost s = self@.input;
        let ghost start = self@.position;
        let n = self.input.as_str().unicode_len();
        while self.position < n && is_whitespace(self.input.as_str().get_char(self.position))
            invariant
                self.wf(),
                self@.input == s,
                n == s.len(),
                skip_ws_from(s, self@.position) == skip_ws_from(s, start),
            decreases s.len() - self@.position,
        {
            self.read_char();
        }
    }

    /// The next lexeme of the input, or nothing at the end of the input;
    /// the cursor ends up just past what was read.
    fn read_literal(&mut self) -> (r: Option<String>)
        requires
            old(self).wf(),
        ensures
            final(self).wf(),
            final(self)@.input == old(self)@.input,
            final(self)@.position == next_literal(old(self)@.input, old(self)@.position).1,
            match r {
                Some(lit) => next_literal(old(self)@.input, old(self)@.position).0 matches Some(l)
                    && lit@ == l,
                None => next_literal(old(self)@.input, old(self)@.position).0 is None,
            },
    {
        let ghost s = self@.input;
        self.skip_whitespace();
        proof {
            lemma_skip_ws_bounds(s, old(self)@.position);
        }
        let n = self.input.as_str().unicode_len();
        if self.position >= n {
            return None;
        }
        let p = self.position;
        let c = self.input.as_str().get_char(p);
        let next_is_assign = match self.peak_char() {
            Some(nc) => nc == '=',
            None => false,
        };
        if is_alnum(c) {
            let mut end = p + 1;
            while end < n && is_alnum(self.input.as_str().get_char(end))
                invariant
                    p + 1 <= end <= n,
                    n == s.len(),
                    self@.input == s,
                    alnum_end(s, end as int) == alnum_end(s, p + 1),
                decreases s.len() - end,
            {
                end = end + 1;
            }
            let lit = self.input.as_str().substring_char(p, end).to_owned();
            self.position = end;
            Some(lit)
        } else if c == '=' && next_is_assign {
            let lit = self.input.as_str().substring_char(p, p + 2).to_owned();
            self.position = p + 2;
            Some(lit)
        } else if c == '!' && next_is_assign {
            let lit = self.input.as_str().substring_char(p, p + 2).to_owned();
            self.position = p + 2;
            Some(lit)
        } else {
            let lit = self.input.as_str().substring_char(p, p + 1).to_owned();
            self.position = p + 1;
            Some(lit)
        }
    }

    /// The next token of the input: the classified next lexeme, or an
    /// `Eof` token at (and ever after) the end of the input.
    pub fn next_token(&mut self) -> (r: Option<Token>)
        requires
            old(self).wf(),
        ensures
            final(self).wf(),
            final(self)@.input == old(self)@.input,
            final(self)@.position == next_token_spec(old(self)@.input, old(self)@.position).1,
            r matches Some(t) && t@ == next_token_spec(old(self)@.input, old(self)@.position).0,
    {
        let literal = self.read_literal();
        match literal {
            Some(lit) => Some(Token::new(lit)),
            None => {
                proof {
                    lemma_token_new_round_trip(TokenType::Eof);
                }
                Some(Token::new("EOF".to_owned()))
            },
        }
    }

    /// The whole token stream of the input, from the current position up
    /// to and including the first `Eof` token.
    pub fn tokenize(&mut self) -> (toks: Vec<Token>)
        requires
            old(self).wf(),
        ensures
            toks.deep_view() == tokenize_from(old(self)@.input, old(self)@.position),
    {
        let ghost s = self@.input;
        let ghost start = self@.position;
        let mut toks: Vec<Token> = Vec::new();
        loop
            invariant
                self.wf(),
                self@.input == s,
                s == old(self)@.input,
                start == old(self)@.position,
                toks.deep_view() + tokenize_from(s, self@.position) == tokenize_from(s, start),
            decreases s.len() - self@.position,
        {
            let ghost pos0 = self@.position;
            let ghost prev = toks.deep_view();
            proof {
                lemma_next_literal_bounds(s, pos0);
            }
            let t = self.next_token();
            let t = t.unwrap();
            let is_eof = t.token_type == TokenType::Eof;
            let ghost tv = t@;
            toks.push(t);
            proof {
                assert(toks.deep_view() =~= prev + seq![tv]);
            }
            if is_eof {
                proof {
                    assert(tokenize_from(s, pos0) == seq![tv]);
                    assert(toks.deep_view() =~= tokenize_from(s, start));
                }
                return toks;
            }
            proof {
                assert(tokenize_from(s, pos0) == seq![tv] + tokenize_from(s, self@.position));
                assert(toks.deep_view() + tokenize_from(s, self@.position) =~= tokenize_from(
                    s,
                    start,
                ));
            }
        }
    }
}

} // verus!
