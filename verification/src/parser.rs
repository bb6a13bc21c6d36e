//! The parser: a Pratt-style expression parser over the token stream,
//! producing a program — an ordered list of statements — and accumulating
//! human-readable error messages instead of aborting. Failed productions
//! yield nothing and log why; the program is still returned, possibly
//! partial.

use vstd::prelude::*;

use crate::ast::{
    BlockStatement, BoolExpression, CallExpression, Expression, ExpressionStatement, ExprModel,
    FunctionExpression, IdentifierExpression, IfElseExpression, InfixExpression,
    IntegralExpression, LetStatement, PrefixExpression, ReturnStatement, Statement, StmtModel,
    view_exprs, view_params, view_stmts, lemma_view_stmts_push, lemma_view_exprs_push,
    lemma_view_params_push,
};
use crate::lexer::{Lexer, tokenize_from, lemma_tokenize_from_shape};
use crate::token::{
    Precedence, Token, TokenModel, TokenType, is_digit_char, is_int_literal, is_operator_kind,
    precedence_of, precedence_value, token_display,
};

verus! {

/// The token at `pos`, with the stream frozen at `Eof` past its end.
pub open spec fn tok_at(toks: Seq<TokenModel>, pos: int) -> TokenModel {
    if 0 <= pos < toks.len() {
        toks[pos]
    } else {
        TokenModel { token_type: TokenType::Eof, literal: "EOF"@ }
    }
}

/// One step of the cursor: it never leaves the stream, resting on the
/// last token once there.
pub open spec fn adv(toks: Seq<TokenModel>, pos: int) -> int {
    if pos + 1 < toks.len() {
        pos + 1
    } else if toks.len() >= 1 {
        toks.len() - 1
    } else {
        0
    }
}

/// `next`, but never before `lo`.
pub open spec fn bump(next: int, lo: int) -> int {
    if next < lo {
        lo
    } else {
        next
    }
}

/// Remaining length of the stream from `pos` on; the parser's measure.
pub open spec fn rem(toks: Seq<TokenModel>, pos: int) -> int {
    if pos <= toks.len() {
        toks.len() - pos
    } else {
        0
    }
}

/// The outcome of one production: the node (absent after a parse error),
/// the position of the production's last token, and the error messages it
/// logged, in order.
pub struct ParseOut<T> {
    pub node: Option<T>,
    pub next: int,
    pub errs: Seq<Seq<char>>,
}

/// The outcome of parsing a whole program or block: the statements that
/// parsed, the position after them, and all error messages in order.
pub struct ManyOut {
    pub stmts: Seq<StmtModel>,
    pub next: int,
    pub errs: Seq<Seq<char>>,
}

/// The numeric value of a digit string.
pub open spec fn digits_value(s: Seq<char>) -> int
    decreases s,
{
    if s.len() == 0 {
        0
    } else {
        digits_value(s.drop_last()) * 10 + (s.last() as u32 - 48)
    }
}

/// A literal read as an integer: defined exactly for one or more digits
/// whose value fits.
pub open spec fn parse_int_literal(s: Seq<char>) -> Option<i64> {
    if is_int_literal(s) && digits_value(s) <= i64::MAX {
        Some(digits_value(s) as i64)
    } else {
        None
    }
}

/// The diagnostic logged when the token after the cursor is not the
/// expected one.
pub open spec fn msg_expected(expected: TokenType, got: TokenModel) -> Seq<char> {
    "Expected next token to be "@ + token_display(
        TokenModel { token_type: expected, literal: Seq::empty() },
    ) + " but got "@ + token_display(got) + " instead"@
}

/// Parse one statement at `pos`: `let` and `return` have their own
/// productions, anything else is an expression statement.
pub open spec fn parse_statement_spec(toks: Seq<TokenModel>, pos: int) -> ParseOut<StmtModel>
    decreases rem(toks, pos), 5int,
{
    match tok_at(toks, pos).token_type {
        TokenType::Let => parse_let_spec(toks, pos),
        TokenType::Return => parse_return_spec(toks, pos),
        _ => parse_exprstmt_spec(toks, pos),
    }
}

/// Parse `let <ident> = <expression>` with an optional trailing
/// semicolon.
pub open spec fn parse_let_spec(toks: Seq<TokenModel>, pos: int) -> ParseOut<StmtModel>
    decreases rem(toks, pos), 4int,
{
    if tok_at(toks, pos + 1).token_type != TokenType::Ident {
        ParseOut {
            node: None,
            next: pos,
            errs: seq!["Let statement is missing an identifier."@],
        }
    } else {
        let name = tok_at(toks, pos + 1).literal;
        if tok_at(toks, pos + 2).token_type != TokenType::Assign {
            ParseOut {
                node: None,
                next: adv(toks, pos),
                errs: seq!["Let statement is missing an assignment operator."@],
            }
        } else {
            let v = parse_expression_spec(toks, pos + 3, Precedence::Lowest);
            match v.node {
                None => ParseOut {
                    node: None,
                    next: v.next,
                    errs: v.errs + seq!["Let statement is missing a value expression"@],
                },
                Some(e) => {
                    let after = if tok_at(toks, v.next + 1).token_type == TokenType::SemiColon {
                        adv(toks, v.next)
                    } else {
                        v.next
                    };
                    ParseOut {
                        node: Some(StmtModel::Let { name, value: e }),
                        next: after,
                        errs: v.errs,
                    }
                },
            }
        }
    }
}

/// Parse `return <expression>` with an optional trailing semicolon.
pub open spec fn parse_return_spec(toks: Seq<TokenModel>, pos: int) -> ParseOut<StmtModel>
    decreases rem(toks, pos), 4int,
{
    let v = parse_expression_spec(toks, pos + 1, Precedence::Lowest);
    match v.node {
        None => ParseOut {
            node: None,
            next: v.next,
            errs: v.errs + seq!["Return statement missing a value expression."@],
        },
        Some(e) => {
            let after = if tok_at(toks, v.next + 1).token_type == TokenType::SemiColon {
                adv(toks, v.next)
            } else {
                v.next
            };
            ParseOut { node: Some(StmtModel::Return { value: e }), next: after, errs: v.errs }
        },
    }
}

/// Parse an expression standing as a statement, with an optional trailing
/// semicolon.
pub open spec fn parse_exprstmt_spec(toks: Seq<TokenModel>, pos: int) -> ParseOut<StmtModel>
    decreases rem(toks, pos), 4int,
{
    let v = parse_expression_spec(toks, pos, Precedence::Lowest);
    match v.node {
        None => ParseOut {
            node: None,
            next: v.next,
            errs: v.errs + seq!["Expression statement is missing a value expression."@],
        },
        Some(e) => {
            let after = if tok_at(toks, v.next + 1).token_type == TokenType::SemiColon {
                adv(toks, v.next)
            } else {
                v.next
            };
            ParseOut { node: Some(StmtModel::Expr { value: e }), next: after, errs: v.errs }
        },
    }
}

/// Pratt parsing: parse a prefix form, then extend it with infix
/// operators and calls while the next token binds tighter than the
/// caller.
pub open spec fn parse_expression_spec(toks: Seq<TokenModel>, pos: int, prec: Precedence) -> ParseOut<
    ExprModel,
>
    decreases rem(toks, pos), 3int,
{
    let first = parse_prefix_form_spec(toks, pos);
    match first.node {
        None => ParseOut {
            node: None,
            next: first.next,
            errs: first.errs + seq!["Expression doesn't have a valid token type."@],
        },
        Some(l) => {
            let r = parse_rest_spec(toks, l, bump(first.next, pos), prec);
            ParseOut { node: r.node, next: r.next, errs: first.errs + r.errs }
        },
    }
}

/// The prefix forms: literals, names, `!`/`-`, grouping parentheses,
/// `if`/`else`, and function literals; any other token is a parse error.
pub open spec fn parse_prefix_form_spec(toks: Seq<TokenModel>, pos: int) -> ParseOut<ExprModel>
    decreases rem(toks, pos), 2int,
{
    let t = tok_at(toks, pos);
    match t.token_type {
        TokenType::Ident => ParseOut {
            node: Some(ExprModel::Ident { name: t.literal }),
            next: pos,
            errs: Seq::empty(),
        },
        TokenType::Int => match parse_int_literal(t.literal) {
            Some(v) => ParseOut {
                node: Some(ExprModel::Int { value: v }),
                next: pos,
                errs: Seq::empty(),
            },
            None => ParseOut {
                node: None,
                next: pos,
                errs: seq!["Integral value not of type int."@],
            },
        },
        TokenType::True => ParseOut {
            node: Some(ExprModel::Bool { value: true }),
            next: pos,
            errs: Seq::empty(),
        },
        TokenType::False => ParseOut {
            node: Some(ExprModel::Bool { value: false }),
            next: pos,
            errs: Seq::empty(),
        },
        TokenType::Bang => parse_prefix_operator_spec(toks, pos),
        TokenType::Minus => parse_prefix_operator_spec(toks, pos),
        TokenType::LParen => parse_grouped_spec(toks, pos),
        TokenType::If => parse_ifelse_spec(toks, pos),
        TokenType::Function => parse_func_spec(toks, pos),
        _ => ParseOut { node: None, next: pos, errs: Seq::empty() },
    }
}

/// Parse `!<operand>` or `-<operand>`, the operand at prefix precedence.
pub open spec fn parse_prefix_operator_spec(toks: Seq<TokenModel>, pos: int) -> ParseOut<ExprModel>
    decreases rem(toks, pos), 1int,
{
    let op = tok_at(toks, pos).token_type;
    if !(0 <= pos < toks.len()) {
        ParseOut { node: None, next: pos, errs: Seq::empty() }
    } else {
    let sub = parse_expression_spec(toks, pos + 1, Precedence::Prefix);
    match sub.node {
        None => ParseOut {
            node: None,
            next: sub.next,
            errs: sub.errs + seq!["Prefix expression missing right operand"@],
        },
        Some(e) => ParseOut {
            node: Some(ExprModel::Prefix { operator: op, right: Box::new(e) }),
            next: sub.next,
            errs: sub.errs,
        },
    }
    }
}

/// Parse `(<expression>)`, requiring the closing parenthesis.
pub open spec fn parse_grouped_spec(toks: Seq<TokenModel>, pos: int) -> ParseOut<ExprModel>
    decreases rem(toks, pos), 1int,
{
    if !(0 <= pos < toks.len()) {
        ParseOut { node: None, next: pos, errs: Seq::empty() }
    } else {
    let sub = parse_expression_spec(toks, pos + 1, Precedence::Lowest);
    if tok_at(toks, sub.next + 1).token_type == TokenType::RParen {
        ParseOut { node: sub.node, next: bump(adv(toks, sub.next), pos), errs: sub.errs }
    } else {
        ParseOut {
            node: None,
            next: sub.next,
            errs: sub.errs + seq!["Grouped expression missing a closing parenthesis."@],
        }
    }
    }
}

/// Parse `if (<condition>) { <consequence> }` with an optional
/// `else { <alternative> }`.
pub open spec fn parse_ifelse_spec(toks: Seq<TokenModel>, pos: int) -> ParseOut<ExprModel>
    decreases rem(toks, pos), 1int,
{
    if tok_at(toks, pos + 1).token_type != TokenType::LParen {
        ParseOut {
            node: None,
            next: pos,
            errs: seq![msg_expected(TokenType::LParen, tok_at(toks, pos + 1))],
        }
    } else {
        let c = parse_expression_spec(toks, pos + 2, Precedence::Lowest);
        match c.node {
            None => ParseOut {
                node: None,
                next: c.next,
                errs: c.errs + seq!["Invalid conditional."@],
            },
            Some(cond) => {
                if tok_at(toks, c.next + 1).token_type != TokenType::RParen {
                    ParseOut {
                        node: None,
                        next: c.next,
                        errs: c.errs + seq![
                            msg_expected(TokenType::RParen, tok_at(toks, c.next + 1)),
                        ],
                    }
                } else if tok_at(toks, c.next + 2).token_type != TokenType::LBrace {
                    ParseOut {
                        node: None,
                        next: adv(toks, c.next),
                        errs: c.errs + seq![
                            msg_expected(TokenType::LBrace, tok_at(toks, c.next + 2)),
                        ],
                    }
                } else {
                    let cons = parse_block_spec(toks, bump(c.next + 3, pos + 1));
                    if tok_at(toks, cons.next + 1).token_type == TokenType::Else {
                        if tok_at(toks, cons.next + 2).token_type != TokenType::LBrace {
                            ParseOut {
                                node: None,
                                next: adv(toks, cons.next),
                                errs: c.errs + cons.errs + seq![
                                    msg_expected(TokenType::LBrace, tok_at(toks, cons.next + 2)),
                                ],
                            }
                        } else {
                            let alt = parse_block_spec(toks, bump(cons.next + 3, pos + 1));
                            ParseOut {
                                node: Some(
                                    ExprModel::IfElse {
                                        condition: Box::new(cond),
                                        consequence: cons.stmts,
                                        alternative: Some(alt.stmts),
                                    },
                                ),
                                next: alt.next,
                                errs: c.errs + cons.errs + alt.errs,
                            }
                        }
                    } else {
                        ParseOut {
                            node: Some(
                                ExprModel::IfElse {
                                    condition: Box::new(cond),
                                    consequence: cons.stmts,
                                    alternative: None,
                                },
                            ),
                            next: cons.next,
                            errs: c.errs + cons.errs,
                        }
                    }
                }
            },
        }
    }
}

/// Parse `fn(<parameters>) { <body> }`.
pub open spec fn parse_func_spec(toks: Seq<TokenModel>, pos: int) -> ParseOut<ExprModel>
    decreases rem(toks, pos), 1int,
{
    if tok_at(toks, pos + 1).token_type != TokenType::LParen {
        ParseOut {
            node: None,
            next: pos,
            errs: seq![msg_expected(TokenType::LParen, tok_at(toks, pos + 1))],
        }
    } else {
        let ps = parse_params_spec(toks, pos + 2, Seq::empty());
        match ps.node {
            None => ParseOut { node: None, next: ps.next, errs: ps.errs },
            Some(params) => {
                if tok_at(toks, ps.next + 1).token_type != TokenType::LBrace {
                    ParseOut { node: None, next: ps.next, errs: ps.errs }
                } else {
                    let body = parse_block_spec(toks, bump(ps.next + 2, pos + 1));
                    ParseOut {
                        node: Some(
                            ExprModel::Function { parameters: params, body: body.stmts },
                        ),
                        next: body.next,
                        errs: ps.errs + body.errs,
                    }
                }
            },
        }
    }
}

/// Parse a parameter list from the token after the opening parenthesis:
/// identifiers separated by commas, ending on the closing parenthesis
/// (which becomes the current token).
pub open spec fn parse_params_spec(
    toks: Seq<TokenModel>,
    pos: int,
    acc: Seq<Seq<char>>,
) -> ParseOut<Seq<Seq<char>>>
    decreases rem(toks, pos), 0int,
{
    let t = tok_at(toks, pos);
    if t.token_type == TokenType::RParen {
        ParseOut { node: Some(acc), next: pos, errs: Seq::empty() }
    } else if t.token_type != TokenType::Ident {
        ParseOut {
            node: None,
            next: pos,
            errs: seq!["Function parameters must be identifiers."@],
        }
    } else if tok_at(toks, pos + 1).token_type == TokenType::RParen {
        ParseOut { node: Some(acc.push(t.literal)), next: pos + 1, errs: Seq::empty() }
    } else if tok_at(toks, pos + 1).token_type != TokenType::Comma {
        ParseOut {
            node: None,
            next: pos,
            errs: seq!["Missing comma between function arguments"@],
        }
    } else {
        parse_params_spec(toks, pos + 2, acc.push(t.literal))
    }
}

/// Parse the statements of a block, from the token after the opening
/// brace up to the closing brace or the end of the input; the closing
/// brace (or final token) is the current token on return.
pub open spec fn parse_block_spec(toks: Seq<TokenModel>, pos: int) -> ManyOut
    decreases rem(toks, pos), 6int,
{
    let t = tok_at(toks, pos).token_type;
    if t == TokenType::RBrace || t == TokenType::Eof {
        ManyOut { stmts: Seq::empty(), next: pos, errs: Seq::empty() }
    } else {
        let s = parse_statement_spec(toks, pos);
        let rest = parse_block_spec(toks, bump(adv(toks, s.next), pos + 1));
        ManyOut {
            stmts: match s.node {
                Some(m) => seq![m] + rest.stmts,
                None => rest.stmts,
            },
            next: rest.next,
            errs: s.errs + rest.errs,
        }
    }
}

/// Parse a whole program: statements until the end of the input.
pub open spec fn parse_program_spec(toks: Seq<TokenModel>, pos: int) -> ManyOut
    decreases rem(toks, pos), 7int,
{
    if tok_at(toks, pos).token_type == TokenType::Eof {
        ManyOut { stmts: Seq::empty(), next: pos, errs: Seq::empty() }
    } else {
        let s = parse_statement_spec(toks, pos);
        let rest = parse_program_spec(toks, bump(adv(toks, s.next), pos + 1));
        ManyOut {
            stmts: match s.node {
                Some(m) => seq![m] + rest.stmts,
                None => rest.stmts,
            },
            next: rest.next,
            errs: s.errs + rest.errs,
        }
    }
}

/// Extend `left` while the token after it binds tighter than the caller:
/// a left parenthesis makes `left` the callee of a call, a binary
/// operator makes it the left operand; anything else ends the expression.
pub open spec fn parse_rest_spec(
    toks: Seq<TokenModel>,
    left: ExprModel,
    pos: int,
    prec: Precedence,
) -> ParseOut<ExprModel>
    decreases rem(toks, pos), 2int,
{
    let nt = tok_at(toks, pos + 1);
    if nt.token_type == TokenType::SemiColon || precedence_value(prec) >= precedence_value(
        precedence_of(nt.token_type),
    ) {
        ParseOut { node: Some(left), next: pos, errs: Seq::empty() }
    } else if nt.token_type == TokenType::LParen {
        let c = parse_call_spec(toks, left, pos + 1);
        match c.node {
            None => ParseOut { node: None, next: c.next, errs: c.errs },
            Some(l2) => {
                let r = parse_rest_spec(toks, l2, bump(c.next, pos + 1), prec);
                ParseOut { node: r.node, next: r.next, errs: c.errs + r.errs }
            },
        }
    } else if is_operator_kind(nt.token_type) {
        let ix = parse_infix_spec(toks, left, pos + 1);
        match ix.node {
            None => ParseOut { node: None, next: ix.next, errs: ix.errs },
            Some(l2) => {
                let r = parse_rest_spec(toks, l2, bump(ix.next, pos + 1), prec);
                ParseOut { node: r.node, next: r.next, errs: ix.errs + r.errs }
            },
        }
    } else {
        ParseOut { node: Some(left), next: pos, errs: Seq::empty() }
    }
}

/// Parse the right operand of the binary operator at `pos` — at the
/// operator's own precedence, so operators of one level associate to the
/// left — and build the infix node.
pub open spec fn parse_infix_spec(toks: Seq<TokenModel>, left: ExprModel, pos: int) -> ParseOut<
    ExprModel,
>
    decreases rem(toks, pos), 4int,
{
    let op = tok_at(toks, pos).token_type;
    let sub = parse_expression_spec(toks, pos + 1, precedence_of(op));
    match sub.node {
        None => ParseOut {
            node: None,
            next: sub.next,
            errs: sub.errs + seq!["Prefix expression missing right operand"@],
        },
        Some(r) => ParseOut {
            node: Some(
                ExprModel::Infix { operator: op, left: Box::new(left), right: Box::new(r) },
            ),
            next: sub.next,
            errs: sub.errs,
        },
    }
}

/// Parse the argument list of a call whose opening parenthesis stands at
/// `pos`, and build the call node.
pub open spec fn parse_call_spec(toks: Seq<TokenModel>, callee: ExprModel, pos: int) -> ParseOut<
    ExprModel,
>
    decreases rem(toks, pos), 4int,
{
    if tok_at(toks, pos + 1).token_type == TokenType::RParen {
        ParseOut {
            node: Some(ExprModel::Call { func: Box::new(callee), arguments: Seq::empty() }),
            next: pos + 1,
            errs: Seq::empty(),
        }
    } else {
        let e0 = parse_expression_spec(toks, pos + 1, Precedence::Lowest);
        match e0.node {
            None => ParseOut {
                node: None,
                next: e0.next,
                errs: e0.errs + seq!["Error in call argument"@],
            },
            Some(a0) => {
                let more = parse_more_args_spec(toks, bump(e0.next, pos + 1), seq![a0]);
                match more.node {
                    None => ParseOut {
                        node: None,
                        next: more.next,
                        errs: e0.errs + more.errs,
                    },
                    Some(args) => ParseOut {
                        node: Some(ExprModel::Call { func: Box::new(callee), arguments: args }),
                        next: more.next,
                        errs: e0.errs + more.errs,
                    },
                }
            },
        }
    }
}

/// Binary operators bind tighter than `Lowest` and never tighter than
/// `Prefix`.
pub proof fn lemma_operator_precedence_range(op: TokenType)
    requires
        is_operator_kind(op),
    ensures
        1 <= precedence_value(precedence_of(op)) <= 4,
{
}

/// Operator precedence and associativity: parsing `a op1 b op2 c ;`
/// groups by the precedence table. When `op2` binds tighter the right
/// side nests — `a op1 (b op2 c)` — and otherwise, equal precedence
/// included, grouping associates to the left: `(a op1 b) op2 c`.
pub proof fn lemma_precedence_grouping(
    op1: TokenType,
    op2: TokenType,
    l1: Seq<char>,
    l2: Seq<char>,
    a: Seq<char>,
    b: Seq<char>,
    c: Seq<char>,
    toks: Seq<TokenModel>,
)
    requires
        is_operator_kind(op1),
        is_operator_kind(op2),
        toks == seq![
            TokenModel { token_type: TokenType::Ident, literal: a },
            TokenModel { token_type: op1, literal: l1 },
            TokenModel { token_type: TokenType::Ident, literal: b },
            TokenModel { token_type: op2, literal: l2 },
            TokenModel { token_type: TokenType::Ident, literal: c },
            TokenModel { token_type: TokenType::SemiColon, literal: ";"@ },
            TokenModel { token_type: TokenType::Eof, literal: "EOF"@ },
        ],
    ensures
        precedence_value(precedence_of(op1)) < precedence_value(precedence_of(op2))
            ==> parse_expression_spec(toks, 0, Precedence::Lowest).node == Some(
            ExprModel::Infix {
                operator: op1,
                left: Box::new(ExprModel::Ident { name: a }),
                right: Box::new(
                    ExprModel::Infix {
                        operator: op2,
                        left: Box::new(ExprModel::Ident { name: b }),
                        right: Box::new(ExprModel::Ident { name: c }),
                    },
                ),
            },
        ),
        precedence_value(precedence_of(op1)) >= precedence_value(precedence_of(op2))
            ==> parse_expression_spec(toks, 0, Precedence::Lowest).node == Some(
            ExprModel::Infix {
                operator: op2,
                left: Box::new(
                    ExprModel::Infix {
                        operator: op1,
                        left: Box::new(ExprModel::Ident { name: a }),
                        right: Box::new(ExprModel::Ident { name: b }),
                    },
                ),
                right: Box::new(ExprModel::Ident { name: c }),
            },
        ),
{
    lemma_operator_precedence_range(op1);
    lemma_operator_precedence_range(op2);
    let ia = ExprModel::Ident { name: a };
    let ib = ExprModel::Ident { name: b };
    let ic = ExprModel::Ident { name: c };
    assert(parse_prefix_form_spec(toks, 0).node == Some(ia));
    assert(parse_prefix_form_spec(toks, 2).node == Some(ib));
    assert(parse_prefix_form_spec(toks, 4).node == Some(ic));
    if precedence_value(precedence_of(op1)) < precedence_value(precedence_of(op2)) {
        assert(parse_rest_spec(toks, ic, 4, precedence_of(op2)) == ParseOut::<ExprModel> {
            node: Some(ic),
            next: 4,
            errs: Seq::empty(),
        });
        assert(parse_expression_spec(toks, 4, precedence_of(op2)).node == Some(ic));
        assert(parse_expression_spec(toks, 4, precedence_of(op2)).next == 4);
        let ibc = ExprModel::Infix {
            operator: op2,
            left: Box::new(ib),
            right: Box::new(ic),
        };
        assert(parse_infix_spec(toks, ib, 3) == ParseOut::<ExprModel> {
            node: Some(ibc),
            next: 4,
            errs: Seq::empty() + Seq::empty(),
        });
        assert(parse_rest_spec(toks, ibc, 4, precedence_of(op1)).node == Some(ibc));
        assert(parse_rest_spec(toks, ib, 2, precedence_of(op1)).node == Some(ibc));
        assert(parse_expression_spec(toks, 2, precedence_of(op1)).node == Some(ibc));
        assert(parse_expression_spec(toks, 2, precedence_of(op1)).next == 4);
        let iabc = ExprModel::Infix {
            operator: op1,
            left: Box::new(ia),
            right: Box::new(ibc),
        };
        assert(parse_infix_spec(toks, ia, 1).node == Some(iabc));
        assert(parse_infix_spec(toks, ia, 1).next == 4);
        assert(parse_rest_spec(toks, iabc, 4, Precedence::Lowest).node == Some(iabc));
        assert(parse_rest_spec(toks, ia, 0, Precedence::Lowest).node == Some(iabc));
        assert(parse_expression_spec(toks, 0, Precedence::Lowest).node == Some(iabc));
    } else {
        assert(parse_rest_spec(toks, ib, 2, precedence_of(op1)).node == Some(ib));
        assert(parse_rest_spec(toks, ib, 2, precedence_of(op1)).next == 2);
        assert(parse_expression_spec(toks, 2, precedence_of(op1)).node == Some(ib));
        assert(parse_expression_spec(toks, 2, precedence_of(op1)).next == 2);
        let iab = ExprModel::Infix {
            operator: op1,
            left: Box::new(ia),
            right: Box::new(ib),
        };
        assert(parse_infix_spec(toks, ia, 1).node == Some(iab));
        assert(parse_infix_spec(toks, ia, 1).next == 2);
        assert(parse_rest_spec(toks, ic, 4, precedence_of(op2)).node == Some(ic));
        assert(parse_expression_spec(toks, 4, precedence_of(op2)).node == Some(ic));
        assert(parse_expression_spec(toks, 4, precedence_of(op2)).next == 4);
        let iabc = ExprModel::Infix {
            operator: op2,
            left: Box::new(iab),
            right: Box::new(ic),
        };
        assert(parse_infix_spec(toks, iab, 3).node == Some(iabc));
        assert(parse_infix_spec(toks, iab, 3).next == 4);
        assert(parse_rest_spec(toks, iabc, 4, Precedence::Lowest).node == Some(iabc));
        assert(parse_rest_spec(toks, iab, 2, Precedence::Lowest).node == Some(iabc));
        assert(parse_rest_spec(toks, ia, 0, Precedence::Lowest).node == Some(iabc));
        assert(parse_expression_spec(toks, 0, Precedence::Lowest).node == Some(iabc));
    }
}

/// Every digit string's value dominates the value of each of its
/// prefixes.
proof fn lemma_digits_prefix(s: Seq<char>, i: int)
    requires
        forall|j: int| 0 <= j < s.len() ==> is_digit_char(s[j]),
        0 <= i <= s.len(),
    ensures
        0 <= digits_value(s.take(i)) <= digits_value(s),
    decreases s,
{
    if s.len() == 0 {
        assert(s.take(i) =~= s);
    } else {
        let dl = s.drop_last();
        assert forall|j: int| 0 <= j < dl.len() implies is_digit_char(dl[j]) by {
            assert(dl[j] == s[j]);
        }
        if i == s.len() {
            assert(s.take(i) =~= s);
            lemma_digits_prefix(dl, dl.len() as int);
            assert(dl.take(dl.len() as int) =~= dl);
            assert(is_digit_char(s.last()));
        } else {
            assert(s.take(i) =~= dl.take(i));
            lemma_digits_prefix(dl, i);
            assert(is_digit_char(s.last()));
            assert(digits_value(s) == digits_value(dl) * 10 + (s.last() as u32 - 48));
        }
    }
}

/// Read a literal as an integer: one or more digits whose value fits.
fn parse_i64(s: &String) -> (r: Option<i64>)
    ensures
        r == parse_int_literal(s@),
{
    let n = s.as_str().unicode_len();
    if n == 0 {
        return None;
    }
    let mut acc: i64 = 0;
    for i in 0..n
        invariant
            n == s@.len(),
            0 <= acc,
            forall|j: int| 0 <= j < i ==> is_digit_char(s@[j]),
            acc == digits_value(s@.take(i as int)),
        decreases n - i,
    {
        let c = s.as_str().get_char(i);
        let v = c as u32;
        if !(48 <= v && v <= 57) {
            return None;
        }
        let d = (v - 48) as i64;
        proof {
            assert(s@.take(i + 1).drop_last() =~= s@.take(i as int));
            assert(s@.take(i + 1).last() == s@[i as int]);
        }
        if acc > 922337203685477580i64 || (acc == 922337203685477580i64 && d > 7) {
            proof {
                if is_int_literal(s@) {
                    lemma_digits_prefix(s@, i + 1);
                }
            }
            return None;
        }
        acc = acc * 10 + d;
    }
    proof {
        assert(s@.take(n as int) =~= s@);
    }
    Some(acc)
}

/// A parsed program: its top-level statements, in source order.
pub struct Program {
    pub statements: Vec<Statement>,
}

impl View for Program {
    type V = Seq<StmtModel>;

    open spec fn view(&self) -> Seq<StmtModel> {
        view_stmts(self.statements@)
    }
}

/// Mathematical image of a [`Parser`]: the token stream, the cursor, and
/// the error messages logged so far.
pub struct ParserModel {
    pub toks: Seq<TokenModel>,
    pub pos: int,
    pub errs: Seq<Seq<char>>,
}

/// The parser: the whole token stream of one source text, a cursor over
/// it, and the parse errors collected so far.
pub struct Parser {
    tokens: Vec<Token>,
    position: usize,
    errors: Vec<String>,
}

impl View for Parser {
    type V = ParserModel;

    closed spec fn view(&self) -> ParserModel {
        ParserModel {
            toks: self.tokens.deep_view(),
            pos: self.position as int,
            errs: self.errors.deep_view(),
        }
    }
}

impl Parser {
    /// The token stream is never empty, its last token — and only that
    /// one — is `Eof`, and the cursor stays on the stream.
    pub open spec fn wf(&self) -> bool {
        &&& self@.toks.len() >= 1
        &&& self@.pos < self@.toks.len()
        &&& self@.toks.last() == (TokenModel { token_type: TokenType::Eof, literal: "EOF"@ })
    }

    /// A parser over everything the given lexer has left to scan.
    pub fn new(lexer: Lexer) -> (parser: Parser)
        requires
            lexer.wf(),
        ensures
            parser.wf(),
            parser@.toks == tokenize_from(lexer@.input, lexer@.position),
            parser@.pos == 0,
            parser@.errs == Seq::<Seq<char>>::empty(),
    {
        let mut lexer = lexer;
        let ghost input = lexer@.input;
        let ghost start = lexer@.position;
        let tokens = lexer.tokenize();
        proof {
            lemma_tokenize_from_shape(input, start);
        }
        let parser = Parser { tokens, position: 0, errors: Vec::new() };
        proof {
            assert(parser@.errs =~= Seq::<Seq<char>>::empty());
        }
        parser
    }

    /// The parse errors logged so far, in the order they were found.
    pub fn errors(&self) -> (r: &Vec<String>)
        ensures
            r.deep_view() == self@.errs,
    {
        &self.errors
    }

    /// The kind of the current token.
    fn token_type(&self) -> (t: TokenType)
        requires
            self.wf(),
        ensures
            t == tok_at(self@.toks, self@.pos).token_type,
    {
        self.tokens[self.position].token_type
    }

    /// Whether the current token has the given kind.
    fn token_is(&self, token_type: TokenType) -> (r: bool)
        requires
            self.wf(),
        ensures
            r == (tok_at(self@.toks, self@.pos).token_type == token_type),
    {
        self.tokens[self.position].token_type == token_type
    }

    /// The token after the current one; at the end of the stream, the
    /// `Eof` token itself.
    fn peek(&self) -> (t: &Token)
        requires
            self.wf(),
        ensures
            t@ == tok_at(self@.toks, self@.pos + 1),
    {
        proof {
            assert(self@.toks.len() == self.tokens@.len());
            assert(self@.pos == self.position as int);
        }
        let n = self.tokens.len();
        if self.position + 1 < n {
            &self.tokens[self.position + 1]
        } else {
            &self.tokens[n - 1]
        }
    }

    /// Whether the token after the current one has the given kind.
    fn next_token_is(&self, token_type: TokenType) -> (r: bool)
        requires
            self.wf(),
        ensures
            r == (tok_at(self@.toks, self@.pos + 1).token_type == token_type),
    {
        self.peek().token_type == token_type
    }

    /// The precedence the current token carries in infix position.
    fn token_precedence(&self) -> (p: Precedence)
        requires
            self.wf(),
        ensures
            p == precedence_of(tok_at(self@.toks, self@.pos).token_type),
    {
        self.tokens[self.position].get_precedence()
    }

    /// The precedence of the token after the current one.
    fn next_token_precedence(&self) -> (p: Precedence)
        requires
            self.wf(),
        ensures
            p == precedence_of(tok_at(self@.toks, self@.pos + 1).token_type),
    {
        self.peek().get_precedence()
    }

    /// Step the cursor one token forward; on the last token it stays.
    pub fn advance_tokens(&mut self)
        requires
            old(self).wf(),
        ensures
            final(self).wf(),
            final(self)@.toks == old(self)@.toks,
            final(self)@.errs == old(self)@.errs,
            final(self)@.pos == adv(old(self)@.toks, old(self)@.pos),
    {
        proof {
            assert(self@.toks.len() == self.tokens@.len());
            assert(self@.pos == self.position as int);
        }
        let n = self.tokens.len();
        if self.position + 1 < n {
            self.position = self.position + 1;
        }
    }

    /// Step forward exactly when the token after the cursor has the
    /// expected kind.
    fn advance_tokens_if_next_token_is(&mut self, expected_type: TokenType) -> (r: bool)
        requires
            old(self).wf(),
        ensures
            final(self).wf(),
            final(self)@.toks == old(self)@.toks,
            final(self)@.errs == old(self)@.errs,
            r == (tok_at(old(self)@.toks, old(self)@.pos + 1).token_type == expected_type),
            final(self)@.pos == if r {
                adv(old(self)@.toks, old(self)@.pos)
            } else {
                old(self)@.pos
            },
    {
        if self.next_token_is(expected_type) {
            self.advance_tokens();
            true
        } else {
            false
        }
    }

    /// Record one parse error.
    fn log_parse_error(&mut self, error_message: String)
        requires
            old(self).wf(),
        ensures
            final(self).wf(),
            final(self)@.toks == old(self)@.toks,
            final(self)@.pos == old(self)@.pos,
            final(self)@.errs == old(self)@.errs + seq![error_message@],
    {
        let ghost before = self@.errs;
        let ghost msg = error_message@;
        self.errors.push(error_message);
        proof {
            assert(self@.errs =~= before + seq![msg]);
        }
    }

    /// Record that the token after the cursor was not the expected one.
    fn log_next_token_error(&mut self, expected_token_type: TokenType)
        requires
            old(self).wf(),
        ensures
            final(self).wf(),
            final(self)@.toks == old(self)@.toks,
            final(self)@.pos == old(self)@.pos,
            final(self)@.errs == old(self)@.errs + seq![
                msg_expected(expected_token_type, tok_at(old(self)@.toks, old(self)@.pos + 1)),
            ],
    {
        let expected_token = Token { token_type: expected_token_type, literal: String::new() };
        let got = self.peek().to_string();
        let m = String::from_str("Expected next token to be ");
        let m = m.concat(expected_token.to_string().as_str());
        let m = m.concat(" but got ");
        let m = m.concat(got.as_str());
        let m = m.concat(" instead");
        proof {
            assert(m@ =~= msg_expected(
                expected_token_type,
                tok_at(old(self)@.toks, old(self)@.pos + 1),
            ));
        }
        self.log_parse_error(m);
    }
}

/// Parse the remaining `, <expression>` arguments after the one ending at
/// `pos`, and require the closing parenthesis.
pub open spec fn parse_more_args_spec(
    toks: Seq<TokenModel>,
    pos: int,
    acc: Seq<ExprModel>,
) -> ParseOut<Seq<ExprModel>>
    decreases rem(toks, pos), 0int,
{
    if tok_at(toks, pos + 1).token_type == TokenType::Comma {
        let e = parse_expression_spec(toks, pos + 2, Precedence::Lowest);
        match e.node {
            None => ParseOut {
                node: None,
                next: e.next,
                errs: e.errs + seq!["Error in parsing call argument"@],
            },
            Some(a) => {
                let more = parse_more_args_spec(toks, bump(e.next, pos + 1), acc.push(a));
                ParseOut { node: more.node, next: more.next, errs: e.errs + more.errs }
            },
        }
    } else if tok_at(toks, pos + 1).token_type == TokenType::RParen {
        ParseOut { node: Some(acc), next: adv(toks, pos), errs: Seq::empty() }
    } else {
        ParseOut {
            node: None,
            next: pos,
            errs: seq![msg_expected(TokenType::RParen, tok_at(toks, pos + 1))],
        }
    }
}

impl Parser {
    /// Parse the whole program: statements until the end of the input,
    /// collecting the statements that parse and logging errors for those
    /// that do not.
    #[verifier::rlimit(100)]
    #[verifier::spinoff_prover]
    pub fn parse_program(&mut self) -> (program: Program)
        requires
            old(self).wf(),
        ensures
            final(self).wf(),
            final(self)@.toks == old(self)@.toks,
            program@ == parse_program_spec(old(self)@.toks, old(self)@.pos).stmts,
            final(self)@.errs == old(self)@.errs + parse_program_spec(
                old(self)@.toks,
                old(self)@.pos,
            ).errs,
    {
        let ghost toks = self@.toks;
        let ghost start = self@.pos;
        let ghost base = self@.errs;
        let mut statements: Vec<Statement> = Vec::new();
        while !self.token_is(TokenType::Eof)
            invariant
                self.wf(),
                self@.toks == toks,
                toks == old(self)@.toks,
                start == old(self)@.pos,
                base == old(self)@.errs,
                parse_program_spec(toks, start).stmts == view_stmts(statements@)
                    + parse_program_spec(toks, self@.pos).stmts,
                base + parse_program_spec(toks, start).errs == self@.errs + parse_program_spec(
                    toks,
                    self@.pos,
                ).errs,
            decreases toks.len() - self@.pos,
        {
            let ghost p = self@.pos;
            let ghost before_stmts = statements@;
            let statement = self.parse_statement();
            let ghost s_out = parse_statement_spec(toks, p);
            match statement {
                Some(s) => {
                    proof {
                        lemma_view_stmts_push(before_stmts, s);
                    }
                    statements.push(s);
                },
                None => {},
            }
            self.advance_tokens();
            proof {
                assert(self@.pos == bump(adv(toks, s_out.next), p + 1));
                assert(parse_program_spec(toks, start).stmts =~= view_stmts(statements@)
                    + parse_program_spec(toks, self@.pos).stmts);
                assert(base + parse_program_spec(toks, start).errs =~= self@.errs
                    + parse_program_spec(toks, self@.pos).errs);
            }
        }
        proof {
            assert(view_stmts(statements@) + Seq::<StmtModel>::empty() =~= view_stmts(
                statements@,
            ));
            assert(self@.errs + Seq::<Seq<char>>::empty() =~= self@.errs);
        }
        Program { statements }
    }

    /// Parse one statement, dispatching on the current token.
    fn parse_statement(&mut self) -> (r: Option<Statement>)
        requires
            old(self).wf(),
        ensures
            final(self).wf(),
            final(self)@.toks == old(self)@.toks,
            final(self)@.pos >= old(self)@.pos,
            ({
                let out = parse_statement_spec(old(self)@.toks, old(self)@.pos);
                &&& final(self)@.pos == out.next
                &&& match out.node {
                    Some(m) => r matches Some(s) && s@ == m,
                    None => r is None,
                }
                &&& final(self)@.errs == old(self)@.errs + out.errs
            }),
        decreases old(self)@.toks.len() - old(self)@.pos, 5int,
    {
        match self.token_type() {
            TokenType::Let => self.parse_let_statement(),
            TokenType::Return => self.parse_return_statement(),
            _ => self.parse_expression_statement(),
        }
    }

    /// Parse `let <identifier> = <expression>`, consuming a trailing
    /// semicolon if one is there.
    fn parse_let_statement(&mut self) -> (r: Option<Statement>)
        requires
            old(self).wf(),
        ensures
            final(self).wf(),
            final(self)@.toks == old(self)@.toks,
            final(self)@.pos >= old(self)@.pos,
            ({
                let out = parse_let_spec(old(self)@.toks, old(self)@.pos);
                &&& final(self)@.pos == out.next
                &&& match out.node {
                    Some(m) => r matches Some(s) && s@ == m,
                    None => r is None,
                }
                &&& final(self)@.errs == old(self)@.errs + out.errs
            }),
        decreases old(self)@.toks.len() - old(self)@.pos, 4int,
    {
        let ghost toks = self@.toks;
        let ghost pos = self@.pos;
        if !self.advance_tokens_if_next_token_is(TokenType::Ident) {
            self.log_parse_error("Let statement is missing an identifier.".to_owned());
            return None;
        }
        let identifier = IdentifierExpression { name: self.tokens[self.position].literal.clone() };
        if !self.advance_tokens_if_next_token_is(TokenType::Assign) {
            self.log_parse_error("Let statement is missing an assignment operator.".to_owned());
            return None;
        }
        self.advance_tokens();
        let value = self.parse_expression(Precedence::Lowest);
        match value {
            None => {
                self.log_parse_error("Let statement is missing a value expression".to_owned());
                None
            },
            Some(e) => {
                self.advance_tokens_if_next_token_is(TokenType::SemiColon);
                Some(Statement::Let(LetStatement { identifier, value: e }))
            },
        }
    }

    /// Parse `return <expression>`, consuming a trailing semicolon if one
    /// is there.
    fn parse_return_statement(&mut self) -> (r: Option<Statement>)
        requires
            old(self).wf(),
            tok_at(old(self)@.toks, old(self)@.pos).token_type == TokenType::Return,
        ensures
            final(self).wf(),
            final(self)@.toks == old(self)@.toks,
            final(self)@.pos >= old(self)@.pos,
            ({
                let out = parse_return_spec(old(self)@.toks, old(self)@.pos);
                &&& final(self)@.pos == out.next
                &&& match out.node {
                    Some(m) => r matches Some(s) && s@ == m,
                    None => r is None,
                }
                &&& final(self)@.errs == old(self)@.errs + out.errs
            }),
        decreases old(self)@.toks.len() - old(self)@.pos, 4int,
    {
        self.advance_tokens();
        let value = self.parse_expression(Precedence::Lowest);
        match value {
            None => {
                self.log_parse_error("Return statement missing a value expression.".to_owned());
                None
            },
            Some(e) => {
                self.advance_tokens_if_next_token_is(TokenType::SemiColon);
                Some(Statement::Return(ReturnStatement { value: e }))
            },
        }
    }

    /// Parse an expression standing as a statement, consuming a trailing
    /// semicolon if one is there.
    fn parse_expression_statement(&mut self) -> (r: Option<Statement>)
        requires
            old(self).wf(),
        ensures
            final(self).wf(),
            final(self)@.toks == old(self)@.toks,
            final(self)@.pos >= old(self)@.pos,
            ({
                let out = parse_exprstmt_spec(old(self)@.toks, old(self)@.pos);
                &&& final(self)@.pos == out.next
                &&& match out.node {
                    Some(m) => r matches Some(s) && s@ == m,
                    None => r is None,
                }
                &&& final(self)@.errs == old(self)@.errs + out.errs
            }),
        decreases old(self)@.toks.len() - old(self)@.pos, 4int,
    {
        let value = self.parse_expression(Precedence::Lowest);
        match value {
            None => {
                self.log_parse_error(
                    "Expression statement is missing a value expression.".to_owned(),
                );
                None
            },
            Some(e) => {
                self.advance_tokens_if_next_token_is(TokenType::SemiColon);
                Some(Statement::Expression(ExpressionStatement { value: e }))
            },
        }
    }

    /// Parse one expression by Pratt parsing: a prefix form, extended
    /// while the next token binds tighter than the caller.
    fn parse_expression(&mut self, precedence: Precedence) -> (r: Option<Expression>)
        requires
            old(self).wf(),
        ensures
            final(self).wf(),
            final(self)@.toks == old(self)@.toks,
            final(self)@.pos >= old(self)@.pos,
            ({
                let out = parse_expression_spec(old(self)@.toks, old(self)@.pos, precedence);
                &&& final(self)@.pos == out.next
                &&& match out.node {
                    Some(m) => r matches Some(e) && e@ == m,
                    None => r is None,
                }
                &&& final(self)@.errs == old(self)@.errs + out.errs
            }),
        decreases old(self)@.toks.len() - old(self)@.pos, 3int,
    {
        let first = self.parse_prefix_form();
        match first {
            None => {
                self.log_parse_error("Expression doesn't have a valid token type.".to_owned());
                None
            },
            Some(left) => self.parse_rest(left, precedence),
        }
    }

    /// Parse one prefix form: a literal, a name, a prefix operator, a
    /// grouped expression, an `if`/`else`, or a function literal.
    fn parse_prefix_form(&mut self) -> (r: Option<Expression>)
        requires
            old(self).wf(),
        ensures
            final(self).wf(),
            final(self)@.toks == old(self)@.toks,
            final(self)@.pos >= old(self)@.pos,
            ({
                let out = parse_prefix_form_spec(old(self)@.toks, old(self)@.pos);
                &&& final(self)@.pos == out.next
                &&& match out.node {
                    Some(m) => r matches Some(e) && e@ == m,
                    None => r is None,
                }
                &&& final(self)@.errs == old(self)@.errs + out.errs
            }),
        decreases old(self)@.toks.len() - old(self)@.pos, 2int,
    {
        let ghost pre = self@.errs;
        match self.token_type() {
            TokenType::Ident => {
                let r = Some(self.parse_identifier_expression());
                proof {
                    assert(self@.errs =~= pre + Seq::<Seq<char>>::empty());
                }
                r
            },
            TokenType::Int => self.parse_integral_expression(),
            TokenType::True => {
                let r = Some(self.parse_bool_expression());
                proof {
                    assert(self@.errs =~= pre + Seq::<Seq<char>>::empty());
                }
                r
            },
            TokenType::False => {
                let r = Some(self.parse_bool_expression());
                proof {
                    assert(self@.errs =~= pre + Seq::<Seq<char>>::empty());
                }
                r
            },
            TokenType::Bang => self.parse_prefix_expression(),
            TokenType::Minus => self.parse_prefix_expression(),
            TokenType::LParen => self.parse_grouped_expression(),
            TokenType::If => self.parse_ifelse_expression(),
            TokenType::Function => self.parse_func_expression(),
            _ => {
                proof {
                    assert(self@.errs =~= pre + Seq::<Seq<char>>::empty());
                }
                None
            },
        }
    }

    /// The name at the cursor as an identifier expression.
    fn parse_identifier_expression(&self) -> (r: Expression)
        requires
            self.wf(),
        ensures
            r@ == (ExprModel::Ident { name: tok_at(self@.toks, self@.pos).literal }),
    {
        Expression::Identifier(
            IdentifierExpression { name: self.tokens[self.position].literal.clone() },
        )
    }

    /// The boolean literal at the cursor.
    fn parse_bool_expression(&self) -> (r: Expression)
        requires
            self.wf(),
            tok_at(self@.toks, self@.pos).token_type == TokenType::True || tok_at(
                self@.toks,
                self@.pos,
            ).token_type == TokenType::False,
        ensures
            r@ == (ExprModel::Bool {
                value: tok_at(self@.toks, self@.pos).token_type == TokenType::True,
            }),
    {
        Expression::Bool(
            BoolExpression { value: self.tokens[self.position].token_type == TokenType::True },
        )
    }

    /// The integer literal at the cursor; a value that does not fit the
    /// integer type is a parse error.
    fn parse_integral_expression(&mut self) -> (r: Option<Expression>)
        requires
            old(self).wf(),
        ensures
            final(self).wf(),
            final(self)@.toks == old(self)@.toks,
            final(self)@.pos == old(self)@.pos,
            match parse_int_literal(tok_at(old(self)@.toks, old(self)@.pos).literal) {
                Some(v) => r matches Some(e) && e@ == (ExprModel::Int { value: v })
                    && final(self)@.errs == old(self)@.errs + Seq::<Seq<char>>::empty(),
                None => r is None && final(self)@.errs == old(self)@.errs + seq![
                    "Integral value not of type int."@,
                ],
            },
    {
        let ghost pre = self@.errs;
        let value = parse_i64(&self.tokens[self.position].literal);
        match value {
            Some(v) => {
                proof {
                    assert(self@.errs =~= pre + Seq::<Seq<char>>::empty());
                }
                Some(Expression::Integral(IntegralExpression { value: v }))
            },
            None => {
                self.log_parse_error("Integral value not of type int.".to_owned());
                None
            },
        }
    }

    /// Parse `!<operand>` or `-<operand>`.
    fn parse_prefix_expression(&mut self) -> (r: Option<Expression>)
        requires
            old(self).wf(),
            tok_at(old(self)@.toks, old(self)@.pos).token_type == TokenType::Bang || tok_at(
                old(self)@.toks,
                old(self)@.pos,
            ).token_type == TokenType::Minus,
        ensures
            final(self).wf(),
            final(self)@.toks == old(self)@.toks,
            final(self)@.pos >= old(self)@.pos,
            ({
                let out = parse_prefix_operator_spec(old(self)@.toks, old(self)@.pos);
                &&& final(self)@.pos == out.next
                &&& match out.node {
                    Some(m) => r matches Some(e) && e@ == m,
                    None => r is None,
                }
                &&& final(self)@.errs == old(self)@.errs + out.errs
            }),
        decreases old(self)@.toks.len() - old(self)@.pos, 1int,
    {
        let operator = self.token_type();
        self.advance_tokens();
        let right = self.parse_expression(Precedence::Prefix);
        match right {
            None => {
                self.log_parse_error("Prefix expression missing right operand".to_owned());
                None
            },
            Some(e) => Some(
                Expression::Prefix(PrefixExpression { operator, right: Box::new(e) }),
            ),
        }
    }

    /// Parse `(<expression>)`, requiring the closing parenthesis.
    fn parse_grouped_expression(&mut self) -> (r: Option<Expression>)
        requires
            old(self).wf(),
            tok_at(old(self)@.toks, old(self)@.pos).token_type == TokenType::LParen,
        ensures
            final(self).wf(),
            final(self)@.toks == old(self)@.toks,
            final(self)@.pos >= old(self)@.pos,
            ({
                let out = parse_grouped_spec(old(self)@.toks, old(self)@.pos);
                &&& final(self)@.pos == out.next
                &&& match out.node {
                    Some(m) => r matches Some(e) && e@ == m,
                    None => r is None,
                }
                &&& final(self)@.errs == old(self)@.errs + out.errs
            }),
        decreases old(self)@.toks.len() - old(self)@.pos, 1int,
    {
        self.advance_tokens();
        let inner = self.parse_expression(Precedence::Lowest);
        if !self.advance_tokens_if_next_token_is(TokenType::RParen) {
            self.log_parse_error("Grouped expression missing a closing parenthesis.".to_owned());
            return None;
        }
        inner
    }

    /// Parse `if (<condition>) { <consequence> }` with an optional
    /// `else { <alternative> }`.
    #[verifier::rlimit(60)]
    fn parse_ifelse_expression(&mut self) -> (r: Option<Expression>)
        requires
            old(self).wf(),
            tok_at(old(self)@.toks, old(self)@.pos).token_type == TokenType::If,
        ensures
            final(self).wf(),
            final(self)@.toks == old(self)@.toks,
            final(self)@.pos >= old(self)@.pos,
            ({
                let out = parse_ifelse_spec(old(self)@.toks, old(self)@.pos);
                &&& final(self)@.pos == out.next
                &&& match out.node {
                    Some(m) => r matches Some(e) && e@ == m,
                    None => r is None,
                }
                &&& final(self)@.errs == old(self)@.errs + out.errs
            }),
        decreases old(self)@.toks.len() - old(self)@.pos, 1int,
    {
        if !self.advance_tokens_if_next_token_is(TokenType::LParen) {
            self.log_next_token_error(TokenType::LParen);
            return None;
        }
        self.advance_tokens();
        let condition = self.parse_expression(Precedence::Lowest);
        let condition = match condition {
            None => {
                self.log_parse_error("Invalid conditional.".to_owned());
                return None;
            },
            Some(c) => c,
        };
        if !self.advance_tokens_if_next_token_is(TokenType::RParen) {
            self.log_next_token_error(TokenType::RParen);
            return None;
        }
        if !self.advance_tokens_if_next_token_is(TokenType::LBrace) {
            self.log_next_token_error(TokenType::LBrace);
            return None;
        }
        let consequence = self.parse_block_statement();
        if self.next_token_is(TokenType::Else) {
            self.advance_tokens();
            if !self.advance_tokens_if_next_token_is(TokenType::LBrace) {
                self.log_next_token_error(TokenType::LBrace);
                return None;
            }
            let alternative = self.parse_block_statement();
            Some(
                Expression::IfElse(
                    IfElseExpression {
                        condition: Box::new(condition),
                        consequence,
                        alternative: Some(alternative),
                    },
                ),
            )
        } else {
            Some(
                Expression::IfElse(
                    IfElseExpression {
                        condition: Box::new(condition),
                        consequence,
                        alternative: None,
                    },
                ),
            )
        }
    }

    /// Parse `fn(<parameters>) { <body> }`.
    fn parse_func_expression(&mut self) -> (r: Option<Expression>)
        requires
            old(self).wf(),
            tok_at(old(self)@.toks, old(self)@.pos).token_type == TokenType::Function,
        ensures
            final(self).wf(),
            final(self)@.toks == old(self)@.toks,
            final(self)@.pos >= old(self)@.pos,
            ({
                let out = parse_func_spec(old(self)@.toks, old(self)@.pos);
                &&& final(self)@.pos == out.next
                &&& match out.node {
                    Some(m) => r matches Some(e) && e@ == m,
                    None => r is None,
                }
                &&& final(self)@.errs == old(self)@.errs + out.errs
            }),
        decreases old(self)@.toks.len() - old(self)@.pos, 1int,
    {
        if !self.advance_tokens_if_next_token_is(TokenType::LParen) {
            self.log_next_token_error(TokenType::LParen);
            return None;
        }
        self.advance_tokens();
        let parameters = self.parse_func_parameters(Vec::new());
        let parameters = match parameters {
            None => {
                return None;
            },
            Some(ps) => ps,
        };
        if !self.advance_tokens_if_next_token_is(TokenType::LBrace) {
            return None;
        }
        let body = self.parse_block_statement();
        Some(
            Expression::Function(
                FunctionExpression {
                    parameters: std::rc::Rc::new(parameters),
                    body: std::rc::Rc::new(body),
                },
            ),
        )
    }

    /// Parse a parameter list: identifiers separated by commas, ending on
    /// the closing parenthesis.
    fn parse_func_parameters(&mut self, params: Vec<IdentifierExpression>) -> (r: Option<
        Vec<IdentifierExpression>,
    >)
        requires
            old(self).wf(),
        ensures
            final(self).wf(),
            final(self)@.toks == old(self)@.toks,
            final(self)@.pos >= old(self)@.pos,
            ({
                let out = parse_params_spec(
                    old(self)@.toks,
                    old(self)@.pos,
                    view_params(params@),
                );
                &&& final(self)@.pos == out.next
                &&& match out.node {
                    Some(m) => r matches Some(ps) && view_params(ps@) == m,
                    None => r is None,
                }
                &&& final(self)@.errs == old(self)@.errs + out.errs
            }),
        decreases old(self)@.toks.len() - old(self)@.pos, 0int,
    {
        let ghost pre = self@.errs;
        if self.token_is(TokenType::RParen) {
            proof {
                assert(self@.errs =~= pre + Seq::<Seq<char>>::empty());
            }
            return Some(params);
        }
        if !self.token_is(TokenType::Ident) {
            self.log_parse_error("Function parameters must be identifiers.".to_owned());
            return None;
        }
        let mut params = params;
        let ghost before = params@;
        let name = self.tokens[self.position].literal.clone();
        proof {
            lemma_view_params_push(before, IdentifierExpression { name });
        }
        params.push(IdentifierExpression { name: self.tokens[self.position].literal.clone() });
        if self.next_token_is(TokenType::RParen) {
            self.advance_tokens();
            proof {
                assert(self@.errs =~= pre + Seq::<Seq<char>>::empty());
            }
            return Some(params);
        }
        if !self.advance_tokens_if_next_token_is(TokenType::Comma) {
            self.log_parse_error("Missing comma between function arguments".to_owned());
            return None;
        }
        self.advance_tokens();
        self.parse_func_parameters(params)
    }

    /// Parse the statements of a block whose opening brace stands at the
    /// cursor; the closing brace (or the final token) is the current token
    /// on return.
    #[verifier::rlimit(60)]
    fn parse_block_statement(&mut self) -> (b: BlockStatement)
        requires
            old(self).wf(),
            tok_at(old(self)@.toks, old(self)@.pos).token_type == TokenType::LBrace,
        ensures
            final(self).wf(),
            final(self)@.toks == old(self)@.toks,
            final(self)@.pos >= old(self)@.pos,
            ({
                let out = parse_block_spec(old(self)@.toks, old(self)@.pos + 1);
                &&& final(self)@.pos == out.next
                &&& b@ == out.stmts
                &&& final(self)@.errs == old(self)@.errs + out.errs
            }),
        decreases old(self)@.toks.len() - old(self)@.pos, 7int,
    {
        let ghost toks = self@.toks;
        let ghost base = self@.errs;
        self.advance_tokens();
        let ghost start = self@.pos;
        let mut statements: Vec<Statement> = Vec::new();
        while !(self.token_is(TokenType::RBrace) || self.token_is(TokenType::Eof))
            invariant
                self.wf(),
                self@.toks == toks,
                toks == old(self)@.toks,
                base == old(self)@.errs,
                start == old(self)@.pos + 1,
                self@.pos >= start,
                parse_block_spec(toks, start).stmts == view_stmts(statements@) + parse_block_spec(
                    toks,
                    self@.pos,
                ).stmts,
                parse_block_spec(toks, start).next == parse_block_spec(toks, self@.pos).next,
                base + parse_block_spec(toks, start).errs == self@.errs + parse_block_spec(
                    toks,
                    self@.pos,
                ).errs,
            decreases toks.len() - self@.pos,
        {
            let ghost p = self@.pos;
            let ghost before_stmts = statements@;
            let statement = self.parse_statement();
            let ghost s_out = parse_statement_spec(toks, p);
            match statement {
                Some(s) => {
                    proof {
                        lemma_view_stmts_push(before_stmts, s);
                    }
                    statements.push(s);
                },
                None => {},
            }
            self.advance_tokens();
            proof {
                assert(self@.pos == bump(adv(toks, s_out.next), p + 1));
                assert(parse_block_spec(toks, start).stmts =~= view_stmts(statements@)
                    + parse_block_spec(toks, self@.pos).stmts);
                assert(base + parse_block_spec(toks, start).errs =~= self@.errs
                    + parse_block_spec(toks, self@.pos).errs);
            }
        }
        proof {
            assert(view_stmts(statements@) + Seq::<StmtModel>::empty() =~= view_stmts(
                statements@,
            ));
            assert(self@.errs + Seq::<Seq<char>>::empty() =~= self@.errs);
        }
        BlockStatement { statements }
    }

    /// Extend `left` while the next token binds tighter than the caller:
    /// calls and binary operators.
    fn parse_rest(&mut self, left: Expression, precedence: Precedence) -> (r: Option<Expression>)
        requires
            old(self).wf(),
        ensures
            final(self).wf(),
            final(self)@.toks == old(self)@.toks,
            final(self)@.pos >= old(self)@.pos,
            ({
                let out = parse_rest_spec(old(self)@.toks, left@, old(self)@.pos, precedence);
                &&& final(self)@.pos == out.next
                &&& match out.node {
                    Some(m) => r matches Some(e) && e@ == m,
                    None => r is None,
                }
                &&& final(self)@.errs == old(self)@.errs + out.errs
            }),
        decreases old(self)@.toks.len() - old(self)@.pos, 2int,
    {
        let ghost pre = self@.errs;
        if self.next_token_is(TokenType::SemiColon) || precedence.value()
            >= self.next_token_precedence().value() {
            proof {
                assert(self@.errs =~= pre + Seq::<Seq<char>>::empty());
            }
            return Some(left);
        }
        if self.next_token_is(TokenType::LParen) {
            self.advance_tokens();
            let called = self.parse_call_expression(left);
            match called {
                None => None,
                Some(l2) => self.parse_rest(l2, precedence),
            }
        } else if self.peek().is_operator() {
            self.advance_tokens();
            let extended = self.parse_infix_expression(left);
            match extended {
                None => None,
                Some(l2) => self.parse_rest(l2, precedence),
            }
        } else {
            proof {
                assert(self@.errs =~= pre + Seq::<Seq<char>>::empty());
            }
            Some(left)
        }
    }

    /// Parse the right operand of the binary operator at the cursor and
    /// build the infix node; one precedence level associates to the left.
    fn parse_infix_expression(&mut self, left: Expression) -> (r: Option<Expression>)
        requires
            old(self).wf(),
            is_operator_kind(tok_at(old(self)@.toks, old(self)@.pos).token_type),
        ensures
            final(self).wf(),
            final(self)@.toks == old(self)@.toks,
            final(self)@.pos >= old(self)@.pos,
            ({
                let out = parse_infix_spec(old(self)@.toks, left@, old(self)@.pos);
                &&& final(self)@.pos == out.next
                &&& match out.node {
                    Some(m) => r matches Some(e) && e@ == m,
                    None => r is None,
                }
                &&& final(self)@.errs == old(self)@.errs + out.errs
            }),
        decreases old(self)@.toks.len() - old(self)@.pos, 4int,
    {
        let operator = self.token_type();
        let precedence = self.token_precedence();
        self.advance_tokens();
        let right = self.parse_expression(precedence);
        match right {
            None => {
                self.log_parse_error("Prefix expression missing right operand".to_owned());
                None
            },
            Some(e) => Some(
                Expression::Infix(
                    InfixExpression { operator, left: Box::new(left), right: Box::new(e) },
                ),
            ),
        }
    }

    /// Parse the argument list of the call whose opening parenthesis
    /// stands at the cursor, and build the call node.
    fn parse_call_expression(&mut self, func: Expression) -> (r: Option<Expression>)
        requires
            old(self).wf(),
            tok_at(old(self)@.toks, old(self)@.pos).token_type == TokenType::LParen,
        ensures
            final(self).wf(),
            final(self)@.toks == old(self)@.toks,
            final(self)@.pos >= old(self)@.pos,
            ({
                let out = parse_call_spec(old(self)@.toks, func@, old(self)@.pos);
                &&& final(self)@.pos == out.next
                &&& match out.node {
                    Some(m) => r matches Some(e) && e@ == m,
                    None => r is None,
                }
                &&& final(self)@.errs == old(self)@.errs + out.errs
            }),
        decreases old(self)@.toks.len() - old(self)@.pos, 4int,
    {
        let ghost pre = self@.errs;
        self.advance_tokens();
        if self.token_is(TokenType::RParen) {
            proof {
                assert(view_exprs(Seq::<Expression>::empty()) =~= Seq::<ExprModel>::empty());
                assert(self@.errs =~= pre + Seq::<Seq<char>>::empty());
            }
            return Some(
                Expression::Call(CallExpression { func: Box::new(func), arguments: Vec::new() }),
            );
        }
        let first = self.parse_expression(Precedence::Lowest);
        let first = match first {
            None => {
                self.log_parse_error("Error in call argument".to_owned());
                return None;
            },
            Some(e) => e,
        };
        let ghost first_view = first@;
        let mut arguments: Vec<Expression> = Vec::new();
        proof {
            lemma_view_exprs_push(Seq::<Expression>::empty(), first);
            assert(view_exprs(Seq::<Expression>::empty()) =~= Seq::<ExprModel>::empty());
        }
        arguments.push(first);
        proof {
            assert(view_exprs(arguments@) =~= seq![first_view]);
        }
        let arguments = self.parse_more_call_arguments(arguments);
        match arguments {
            None => None,
            Some(args) => Some(
                Expression::Call(CallExpression { func: Box::new(func), arguments: args }),
            ),
        }
    }

    /// Parse the remaining `, <expression>` arguments and require the
    /// closing parenthesis.
    fn parse_more_call_arguments(&mut self, arguments: Vec<Expression>) -> (r: Option<
        Vec<Expression>,
    >)
        requires
            old(self).wf(),
        ensures
            final(self).wf(),
            final(self)@.toks == old(self)@.toks,
            final(self)@.pos >= old(self)@.pos,
            ({
                let out = parse_more_args_spec(
                    old(self)@.toks,
                    old(self)@.pos,
                    view_exprs(arguments@),
                );
                &&& final(self)@.pos == out.next
                &&& match out.node {
                    Some(m) => r matches Some(args) && view_exprs(args@) == m,
                    None => r is None,
                }
                &&& final(self)@.errs == old(self)@.errs + out.errs
            }),
        decreases old(self)@.toks.len() - old(self)@.pos, 0int,
    {
        let ghost pre = self@.errs;
        let ghost toks = self@.toks;
        let ghost pos = self@.pos;
        if self.next_token_is(TokenType::Comma) {
            self.advance_tokens();
            self.advance_tokens();
            let ghost e_out = parse_expression_spec(toks, pos + 2, Precedence::Lowest);
            let e = self.parse_expression(Precedence::Lowest);
            match e {
                None => {
                    self.log_parse_error("Error in parsing call argument".to_owned());
                    proof {
                        assert(self@.errs =~= pre + (e_out.errs + seq![
                            "Error in parsing call argument"@,
                        ]));
                    }
                    None
                },
                Some(a) => {
                    let mut arguments = arguments;
                    let ghost before = arguments@;
                    proof {
                        lemma_view_exprs_push(before, a);
                    }
                    arguments.push(a);
                    let ghost m_out = parse_more_args_spec(
                        toks,
                        bump(e_out.next, pos + 1),
                        view_exprs(arguments@),
                    );
                    let r = self.parse_more_call_arguments(arguments);
                    proof {
                        assert(self@.errs =~= pre + (e_out.errs + m_out.errs));
                    }
                    r
                },
            }
        } else if self.advance_tokens_if_next_token_is(TokenType::RParen) {
            proof {
                assert(self@.errs =~= pre + Seq::<Seq<char>>::empty());
            }
            Some(arguments)
        } else {
            self.log_next_token_error(TokenType::RParen);
            None
        }
    }
}

} // verus!
