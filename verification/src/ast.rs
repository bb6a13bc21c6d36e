//! The abstract syntax tree: statements and expressions as tagged
//! unions, together with their mathematical models over sequences.

use vstd::prelude::*;

use std::rc::Rc;
use crate::token::TokenType;

verus! {

/// The kind of an AST node.
#[derive(Clone, Copy, PartialEq, Eq, Structural, Debug)]
pub enum NodeType {
    LetStatement,
    ReturnStatement,
    ExpressionStatement,
    BlockStatement,
    IdentifierExpression,
    IntegralExpression,
    BoolExpression,
    PrefixExpression,
    InfixExpression,
    IfElseExpression,
    FunctionExpression,
    CallExpression,
}

/// `let <identifier> = <value>;`
pub struct LetStatement {
    pub identifier: IdentifierExpression,
    pub value: Expression,
}

/// `return <value>;`
pub struct ReturnStatement {
    pub value: Expression,
}

/// An expression standing as a statement.
pub struct ExpressionStatement {
    pub value: Expression,
}

/// `{ <statements> }`
pub struct BlockStatement {
    pub statements: Vec<Statement>,
}

/// A name in expression position.
pub struct IdentifierExpression {
    pub name: String,
}

/// An integer literal.
pub struct IntegralExpression {
    pub value: i64,
}

/// `true` or `false`.
pub struct BoolExpression {
    pub value: bool,
}

/// `!<right>` or `-<right>`.
pub struct PrefixExpression {
    pub operator: TokenType,
    pub right: Box<Expression>,
}

/// `<left> <operator> <right>`.
pub struct InfixExpression {
    pub operator: TokenType,
    pub left: Box<Expression>,
    pub right: Box<Expression>,
}

/// `if (<condition>) { <consequence> }` with an optional
/// `else { <alternative> }`.
pub struct IfElseExpression {
    pub condition: Box<Expression>,
    pub consequence: BlockStatement,
    pub alternative: Option<BlockStatement>,
}

/// `fn(<parameters>) { <body> }`. The parameter list and the body are
/// shared with every function value made from this literal.
pub struct FunctionExpression {
    pub parameters: Rc<Vec<IdentifierExpression>>,
    pub body: Rc<BlockStatement>,
}

/// `<func>(<arguments>)`.
pub struct CallExpression {
    pub func: Box<Expression>,
    pub arguments: Vec<Expression>,
}

/// A statement node.
pub enum Statement {
    Let(LetStatement),
    Return(ReturnStatement),
    Expression(ExpressionStatement),
    Block(BlockStatement),
}

/// An expression node.
pub enum Expression {
    Identifier(IdentifierExpression),
    Integral(IntegralExpression),
    Bool(BoolExpression),
    Prefix(PrefixExpression),
    Infix(InfixExpression),
    IfElse(IfElseExpression),
    Function(FunctionExpression),
    Call(CallExpression),
}

/// Mathematical image of a [`Statement`].
pub enum StmtModel {
    Let { name: Seq<char>, value: ExprModel },
    Return { value: ExprModel },
    Expr { value: ExprModel },
    Block { statements: Seq<StmtModel> },
}

/// Mathematical image of an [`Expression`].
pub enum ExprModel {
    Ident { name: Seq<char> },
    Int { value: i64 },
    Bool { value: bool },
    Prefix { operator: TokenType, right: Box<ExprModel> },
    Infix { operator: TokenType, left: Box<ExprModel>, right: Box<ExprModel> },
    IfElse {
        condition: Box<ExprModel>,
        consequence: Seq<StmtModel>,
        alternative: Option<Seq<StmtModel>>,
    },
    Function { parameters: Seq<Seq<char>>, body: Seq<StmtModel> },
    Call { func: Box<ExprModel>, arguments: Seq<ExprModel> },
}

/// The model of an expression node.
pub open spec fn view_expr(e: Expression) -> ExprModel
    decreases e,
{
    match e {
        Expression::Identifier(n) => ExprModel::Ident { name: n.name@ },
        Expression::Integral(n) => ExprModel::Int { value: n.value },
        Expression::Bool(n) => ExprModel::Bool { value: n.value },
        Expression::Prefix(n) => ExprModel::Prefix {
            operator: n.operator,
            right: Box::new(view_expr(*n.right)),
        },
        Expression::Infix(n) => ExprModel::Infix {
            operator: n.operator,
            left: Box::new(view_expr(*n.left)),
            right: Box::new(view_expr(*n.right)),
        },
        Expression::IfElse(n) => ExprModel::IfElse {
            condition: Box::new(view_expr(*n.condition)),
            consequence: view_stmts(n.consequence.statements@),
            alternative: match n.alternative {
                Some(b) => Some(view_stmts(b.statements@)),
                None => None,
            },
        },
        Expression::Function(n) => ExprModel::Function {
            parameters: view_params(n.parameters@),
            body: view_stmts(n.body.statements@),
        },
        Expression::Call(n) => ExprModel::Call {
            func: Box::new(view_expr(*n.func)),
            arguments: view_exprs(n.arguments@),
        },
    }
}

/// The model of a statement node.
pub open spec fn view_stmt(s: Statement) -> StmtModel
    decreases s,
{
    match s {
        Statement::Let(n) => StmtModel::Let { name: n.identifier.name@, value: view_expr(n.value) },
        Statement::Return(n) => StmtModel::Return { value: view_expr(n.value) },
        Statement::Expression(n) => StmtModel::Expr { value: view_expr(n.value) },
        Statement::Block(n) => StmtModel::Block { statements: view_stmts(n.statements@) },
    }
}

/// The models of a sequence of statements, in order.
pub open spec fn view_stmts(ss: Seq<Statement>) -> Seq<StmtModel>
    decreases ss,
{
    if ss.len() == 0 {
        Seq::empty()
    } else {
        seq![view_stmt(ss[0])] + view_stmts(ss.skip(1))
    }
}

/// The models of a sequence of expressions, in order.
pub open spec fn view_exprs(es: Seq<Expression>) -> Seq<ExprModel>
    decreases es,
{
    if es.len() == 0 {
        Seq::empty()
    } else {
        seq![view_expr(es[0])] + view_exprs(es.skip(1))
    }
}

/// The names of a parameter list, in order.
pub open spec fn view_params(ps: Seq<IdentifierExpression>) -> Seq<Seq<char>>
    decreases ps,
{
    if ps.len() == 0 {
        Seq::empty()
    } else {
        seq![ps[0].name@] + view_params(ps.skip(1))
    }
}

impl View for Expression {
    type V = ExprModel;

    open spec fn view(&self) -> ExprModel {
        view_expr(*self)
    }
}

impl View for Statement {
    type V = StmtModel;

    open spec fn view(&self) -> StmtModel {
        view_stmt(*self)
    }
}

impl View for BlockStatement {
    type V = Seq<StmtModel>;

    open spec fn view(&self) -> Seq<StmtModel> {
        view_stmts(self.statements@)
    }
}

/// Statement models line up with the statements, index by index.
pub proof fn lemma_view_stmts_index(ss: Seq<Statement>)
    ensures
        view_stmts(ss).len() == ss.len(),
        forall|i: int| 0 <= i < ss.len() ==> view_stmts(ss)[i] == view_stmt(ss[i]),
    decreases ss,
{
    if ss.len() > 0 {
        lemma_view_stmts_index(ss.skip(1));
    }
}

/// Expression models line up with the expressions, index by index.
pub proof fn lemma_view_exprs_index(es: Seq<Expression>)
    ensures
        view_exprs(es).len() == es.len(),
        forall|i: int| 0 <= i < es.len() ==> view_exprs(es)[i] == view_expr(es[i]),
    decreases es,
{
    if es.len() > 0 {
        lemma_view_exprs_index(es.skip(1));
    }
}

/// Parameter names line up with the parameters, index by index.
pub proof fn lemma_view_params_index(ps: Seq<IdentifierExpression>)
    ensures
        view_params(ps).len() == ps.len(),
        forall|i: int| 0 <= i < ps.len() ==> view_params(ps)[i] == ps[i].name@,
    decreases ps,
{
    if ps.len() > 0 {
        lemma_view_params_index(ps.skip(1));
    }
}

/// Appending a statement appends its model.
pub proof fn lemma_view_stmts_push(ss: Seq<Statement>, s: Statement)
    ensures
        view_stmts(ss.push(s)) == view_stmts(ss).push(view_stmt(s)),
{
    lemma_view_stmts_index(ss);
    lemma_view_stmts_index(ss.push(s));
    assert forall|i: int| 0 <= i < ss.push(s).len() implies view_stmts(ss.push(s))[i]
        == view_stmts(ss).push(view_stmt(s))[i] by {
        if i < ss.len() {
            assert(ss.push(s)[i] == ss[i]);
        } else {
            assert(ss.push(s)[i] == s);
        }
    }
    assert(view_stmts(ss.push(s)) =~= view_stmts(ss).push(view_stmt(s)));
}

/// Appending an expression appends its model.
pub proof fn lemma_view_exprs_push(es: Seq<Expression>, e: Expression)
    ensures
        view_exprs(es.push(e)) == view_exprs(es).push(view_expr(e)),
{
    lemma_view_exprs_index(es);
    lemma_view_exprs_index(es.push(e));
    assert forall|i: int| 0 <= i < es.push(e).len() implies view_exprs(es.push(e))[i]
        == view_exprs(es).push(view_expr(e))[i] by {
        if i < es.len() {
            assert(es.push(e)[i] == es[i]);
        } else {
            assert(es.push(e)[i] == e);
        }
    }
    assert(view_exprs(es.push(e)) =~= view_exprs(es).push(view_expr(e)));
}

/// Appending a parameter appends its name.
pub proof fn lemma_view_params_push(ps: Seq<IdentifierExpression>, p: IdentifierExpression)
    ensures
        view_params(ps.push(p)) == view_params(ps).push(p.name@),
{
    lemma_view_params_index(ps);
    lemma_view_params_index(ps.push(p));
    assert forall|i: int| 0 <= i < ps.push(p).len() implies view_params(ps.push(p))[i]
        == view_params(ps).push(p.name@)[i] by {
        if i < ps.len() {
            assert(ps.push(p)[i] == ps[i]);
        } else {
            assert(ps.push(p)[i] == p);
        }
    }
    assert(view_params(ps.push(p)) =~= view_params(ps).push(p.name@));
}

/// The kind of a statement model.
pub open spec fn stmt_node_type(s: StmtModel) -> NodeType {
    match s {
        StmtModel::Let { .. } => NodeType::LetStatement,
        StmtModel::Return { .. } => NodeType::ReturnStatement,
        StmtModel::Expr { .. } => NodeType::ExpressionStatement,
        StmtModel::Block { .. } => NodeType::BlockStatement,
    }
}

/// The kind of an expression model.
pub open spec fn expr_node_type(e: ExprModel) -> NodeType {
    match e {
        ExprModel::Ident { .. } => NodeType::IdentifierExpression,
        ExprModel::Int { .. } => NodeType::IntegralExpression,
        ExprModel::Bool { .. } => NodeType::BoolExpression,
        ExprModel::Prefix { .. } => NodeType::PrefixExpression,
        ExprModel::Infix { .. } => NodeType::InfixExpression,
        ExprModel::IfElse { .. } => NodeType::IfElseExpression,
        ExprModel::Function { .. } => NodeType::FunctionExpression,
        ExprModel::Call { .. } => NodeType::CallExpression,
    }
}

/// The digit character of one decimal digit.
pub open spec fn digit_char_of(d: int) -> char {
    if d == 0 {
        '0'
    } else if d == 1 {
        '1'
    } else if d == 2 {
        '2'
    } else if d == 3 {
        '3'
    } else if d == 4 {
        '4'
    } else if d == 5 {
        '5'
    } else if d == 6 {
        '6'
    } else if d == 7 {
        '7'
    } else if d == 8 {
        '8'
    } else {
        '9'
    }
}

/// The decimal digits of a non-negative number, most significant first.
pub open spec fn dec_digits(n: int) -> Seq<char>
    decreases n,
{
    if n < 10 {
        seq![digit_char_of(n)]
    } else {
        dec_digits(n / 10) + seq![digit_char_of(n % 10)]
    }
}

/// The decimal rendering of an integer: a minus sign for negative values,
/// then the digits.
pub open spec fn int_chars(v: i64) -> Seq<char> {
    if v < 0 {
        seq!['-'] + dec_digits(-(v as int))
    } else {
        dec_digits(v as int)
    }
}

/// The rendering of one prefix or infix operator.
pub open spec fn op_chars(op: TokenType) -> Seq<char> {
    crate::token::token_display(crate::token::TokenModel { token_type: op, literal: Seq::empty() })
}

/// Parameter names joined by commas.
pub open spec fn params_chars(ps: Seq<Seq<char>>) -> Seq<char>
    decreases ps,
{
    if ps.len() == 0 {
        Seq::empty()
    } else if ps.len() == 1 {
        ps[0]
    } else {
        ps[0] + ","@ + params_chars(ps.skip(1))
    }
}

/// The rendering of a statement: a bracketed form naming its kind.
pub open spec fn stmt_chars(m: StmtModel) -> Seq<char>
    decreases m,
{
    match m {
        StmtModel::Let { name, value } => "[Let "@ + name + " = "@ + expr_chars(value) + "]"@,
        StmtModel::Return { value } => "[Return "@ + expr_chars(value) + "]"@,
        StmtModel::Expr { value } => "["@ + expr_chars(value) + "]"@,
        StmtModel::Block { statements } => block_chars(statements),
    }
}

/// The rendering of a block: each statement on its own line.
pub open spec fn block_chars(ms: Seq<StmtModel>) -> Seq<char>
    decreases ms,
{
    if ms.len() == 0 {
        Seq::empty()
    } else {
        stmt_chars(ms[0]) + "\n"@ + block_chars(ms.skip(1))
    }
}

/// The renderings of an argument list, joined by commas.
pub open spec fn args_chars(ms: Seq<ExprModel>) -> Seq<char>
    decreases ms,
{
    if ms.len() == 0 {
        Seq::empty()
    } else if ms.len() == 1 {
        expr_chars(ms[0])
    } else {
        expr_chars(ms[0]) + ","@ + args_chars(ms.skip(1))
    }
}

/// The rendering of an expression: an unambiguous bracketed form.
pub open spec fn expr_chars(m: ExprModel) -> Seq<char>
    decreases m,
{
    match m {
        ExprModel::Ident { name } => name,
        ExprModel::Int { value } => int_chars(value),
        ExprModel::Bool { value } => if value {
            "True"@
        } else {
            "False"@
        },
        ExprModel::Prefix { operator, right } => "["@ + op_chars(operator) + " "@ + expr_chars(
            *right,
        ) + "]"@,
        ExprModel::Infix { operator, left, right } => "["@ + expr_chars(*left) + " "@ + op_chars(
            operator,
        ) + " "@ + expr_chars(*right) + "]"@,
        ExprModel::IfElse { condition, consequence, alternative } => {
            let head = "If "@ + expr_chars(*condition) + " do \n"@ + block_chars(consequence);
            match alternative {
                Some(alt) => head + "else do \n"@ + block_chars(alt),
                None => head,
            }
        },
        ExprModel::Function { parameters, body } => "Func ("@ + params_chars(parameters) + ")\n"@
            + block_chars(body),
        ExprModel::Call { func, arguments } => "["@ + expr_chars(*func) + " ("@ + args_chars(
            arguments,
        ) + ")]"@,
    }
}

/// The one-character string of a decimal digit.
fn digit_str(d: u64) -> (r: &'static str)
    requires
        d < 10,
    ensures
        r@ == seq![digit_char_of(d as int)],
{
    proof {
        reveal_strlit("0");
        reveal_strlit("1");
        reveal_strlit("2");
        reveal_strlit("3");
        reveal_strlit("4");
        reveal_strlit("5");
        reveal_strlit("6");
        reveal_strlit("7");
        reveal_strlit("8");
        reveal_strlit("9");
    }
    match d {
        0 => "0",
        1 => "1",
        2 => "2",
        3 => "3",
        4 => "4",
        5 => "5",
        6 => "6",
        7 => "7",
        8 => "8",
        _ => "9",
    }
}

/// Append the decimal digits of `n`.
fn push_decimal(n: u64, out: &mut String)
    ensures
        final(out)@ == old(out)@ + dec_digits(n as int),
    decreases n,
{
    if n < 10 {
        out.append(digit_str(n));
    } else {
        push_decimal(n / 10, out);
        out.append(digit_str(n % 10));
        proof {
            assert(final(out)@ =~= old(out)@ + dec_digits(n as int));
        }
    }
}

/// The decimal rendering of an integer.
pub fn int_to_string(v: i64) -> (r: String)
    ensures
        r@ == int_chars(v),
{
    if v >= 0 {
        let mut out = String::new();
        push_decimal(v as u64, &mut out);
        proof {
            assert(out@ =~= int_chars(v));
        }
        out
    } else {
        let magnitude: u64 = if v == i64::MIN {
            9223372036854775808u64
        } else {
            (-v) as u64
        };
        let mut out = String::from_str("-");
        push_decimal(magnitude, &mut out);
        proof {
            reveal_strlit("-");
            assert("-"@ =~= seq!['-']);
            assert(magnitude as int == -(v as int));
            assert(out@ =~= int_chars(v));
        }
        out
    }
}

/// The rendering of one operator token kind.
fn op_to_string(op: TokenType) -> (r: String)
    ensures
        r@ == op_chars(op),
{
    let t = crate::token::Token { token_type: op, literal: String::new() };
    t.to_string()
}

/// Parameter names from index `i` on, joined by commas.
pub(crate) fn params_to_string(params: &Vec<IdentifierExpression>, i: usize) -> (r: String)
    requires
        i <= params.len(),
    ensures
        r@ == params_chars(view_params(params@.skip(i as int))),
    decreases params.len() - i,
{
    proof {
        lemma_view_params_index(params@.skip(i as int));
    }
    if i == params.len() {
        proof {
            assert(params@.skip(i as int) =~= Seq::<IdentifierExpression>::empty());
        }
        String::new()
    } else if i + 1 == params.len() {
        proof {
            assert(params@.skip(i as int)[0] == params@[i as int]);
        }
        params[i].name.clone()
    } else {
        proof {
            assert(params@.skip(i as int)[0] == params@[i as int]);
            assert(params@.skip(i as int).skip(1) =~= params@.skip(i + 1));
            assert(view_params(params@.skip(i as int)).skip(1) =~= view_params(
                params@.skip(i + 1),
            ));
        }
        let head = params[i].name.clone();
        let head = head.concat(",");
        let rest = params_to_string(params, i + 1);
        let r = head.concat(rest.as_str());
        proof {
            assert(r@ =~= params_chars(view_params(params@.skip(i as int))));
        }
        r
    }
}

/// Statement renderings from index `i` on, one per line.
pub(crate) fn block_to_string(stmts: &Vec<Statement>, i: usize) -> (r: String)
    requires
        i <= stmts.len(),
    ensures
        r@ == block_chars(view_stmts(stmts@.skip(i as int))),
    decreases stmts@, stmts@.len() - i,
{
    proof {
        lemma_view_stmts_index(stmts@.skip(i as int));
    }
    if i == stmts.len() {
        proof {
            assert(stmts@.skip(i as int) =~= Seq::<Statement>::empty());
        }
        String::new()
    } else {
        proof {
            assert(stmts@.skip(i as int)[0] == stmts@[i as int]);
            assert(stmts@.skip(i as int).skip(1) =~= stmts@.skip(i + 1));
            assert(view_stmts(stmts@.skip(i as int)).skip(1) =~= view_stmts(stmts@.skip(i + 1)));
        }
        let head = stmts[i].to_string();
        let head = head.concat("\n");
        let rest = block_to_string(stmts, i + 1);
        let r = head.concat(rest.as_str());
        proof {
            assert(r@ =~= block_chars(view_stmts(stmts@.skip(i as int))));
        }
        r
    }
}

/// Argument renderings from index `i` on, joined by commas.
fn call_args_to_string(args: &Vec<Expression>, i: usize) -> (r: String)
    requires
        i <= args.len(),
    ensures
        r@ == args_chars(view_exprs(args@.skip(i as int))),
    decreases args@, args@.len() - i,
{
    proof {
        lemma_view_exprs_index(args@.skip(i as int));
    }
    if i == args.len() {
        proof {
            assert(args@.skip(i as int) =~= Seq::<Expression>::empty());
        }
        String::new()
    } else if i + 1 == args.len() {
        proof {
            assert(args@.skip(i as int)[0] == args@[i as int]);
        }
        args[i].to_string()
    } else {
        proof {
            assert(args@.skip(i as int)[0] == args@[i as int]);
            assert(args@.skip(i as int).skip(1) =~= args@.skip(i + 1));
            assert(view_exprs(args@.skip(i as int)).skip(1) =~= view_exprs(args@.skip(i + 1)));
        }
        let head = args[i].to_string();
        let head = head.concat(",");
        let rest = call_args_to_string(args, i + 1);
        let r = head.concat(rest.as_str());
        proof {
            assert(r@ =~= args_chars(view_exprs(args@.skip(i as int))));
        }
        r
    }
}

impl Statement {
    /// Render this statement in its unambiguous bracketed form.
    pub fn to_string(&self) -> (r: String)
        ensures
            r@ == stmt_chars(self@),
        decreases self,
    {
        match self {
            Statement::Let(n) => n.to_string(),
            Statement::Return(n) => n.to_string(),
            Statement::Expression(n) => n.to_string(),
            Statement::Block(n) => n.to_string(),
        }
    }
}

impl LetStatement {
    /// Render `[Let <name> = <value>]`.
    pub fn to_string(&self) -> (r: String)
        ensures
            r@ == "[Let "@ + self.identifier.name@ + " = "@ + expr_chars(view_expr(self.value))
                + "]"@,
        decreases self,
    {
        let m = String::from_str("[Let ");
        let m = m.concat(self.identifier.name.as_str());
        let m = m.concat(" = ");
        let v = self.value.to_string();
        let m = m.concat(v.as_str());
        let m = m.concat("]");
        proof {
            assert(m@ =~= "[Let "@ + self.identifier.name@ + " = "@ + expr_chars(view_expr(
                self.value,
            )) + "]"@);
        }
        m
    }
}

impl ReturnStatement {
    /// Render `[Return <value>]`.
    pub fn to_string(&self) -> (r: String)
        ensures
            r@ == "[Return "@ + expr_chars(view_expr(self.value)) + "]"@,
        decreases self,
    {
        let m = String::from_str("[Return ");
        let v = self.value.to_string();
        let m = m.concat(v.as_str());
        let m = m.concat("]");
        proof {
            assert(m@ =~= "[Return "@ + expr_chars(view_expr(self.value)) + "]"@);
        }
        m
    }
}

impl ExpressionStatement {
    /// Render `[<value>]`.
    pub fn to_string(&self) -> (r: String)
        ensures
            r@ == "["@ + expr_chars(view_expr(self.value)) + "]"@,
        decreases self,
    {
        let m = String::from_str("[");
        let v = self.value.to_string();
        let m = m.concat(v.as_str());
        let m = m.concat("]");
        proof {
            assert(m@ =~= "["@ + expr_chars(view_expr(self.value)) + "]"@);
        }
        m
    }
}

impl BlockStatement {
    /// Render each statement of the block on its own line.
    pub fn to_string(&self) -> (r: String)
        ensures
            r@ == block_chars(self@),
        decreases self,
    {
        proof {
            assert(self.statements@.skip(0) =~= self.statements@);
        }
        block_to_string(&self.statements, 0)
    }
}

impl Expression {
    /// Render this expression in its unambiguous bracketed form.
    pub fn to_string(&self) -> (r: String)
        ensures
            r@ == expr_chars(self@),
        decreases self,
    {
        match self {
            Expression::Identifier(n) => n.to_string(),
            Expression::Integral(n) => n.to_string(),
            Expression::Bool(n) => n.to_string(),
            Expression::Prefix(n) => n.to_string(),
            Expression::Infix(n) => n.to_string(),
            Expression::IfElse(n) => n.to_string(),
            Expression::Function(n) => n.to_string(),
            Expression::Call(n) => n.to_string(),
        }
    }
}

impl IdentifierExpression {
    /// Render the name itself.
    pub fn to_string(&self) -> (r: String)
        ensures
            r@ == self.name@,
    {
        self.name.clone()
    }
}

impl IntegralExpression {
    /// Render the integer in decimal.
    pub fn to_string(&self) -> (r: String)
        ensures
            r@ == int_chars(self.value),
    {
        int_to_string(self.value)
    }
}

impl BoolExpression {
    /// Render `True` or `False`.
    pub fn to_string(&self) -> (r: String)
        ensures
            r@ == if self.value {
                "True"@
            } else {
                "False"@
            },
    {
        if self.value {
            "True".to_owned()
        } else {
            "False".to_owned()
        }
    }
}

impl PrefixExpression {
    /// Render `[<operator> <operand>]`.
    pub fn to_string(&self) -> (r: String)
        ensures
            r@ == "["@ + op_chars(self.operator) + " "@ + expr_chars(view_expr(*self.right))
                + "]"@,
        decreases self,
    {
        let m = String::from_str("[");
        let o = op_to_string(self.operator);
        let m = m.concat(o.as_str());
        let m = m.concat(" ");
        let v = self.right.to_string();
        let m = m.concat(v.as_str());
        let m = m.concat("]");
        proof {
            assert(m@ =~= "["@ + op_chars(self.operator) + " "@ + expr_chars(view_expr(
                *self.right,
            )) + "]"@);
        }
        m
    }
}

impl InfixExpression {
    /// Render `[<left> <operator> <right>]`.
    pub fn to_string(&self) -> (r: String)
        ensures
            r@ == "["@ + expr_chars(view_expr(*self.left)) + " "@ + op_chars(self.operator) + " "@
                + expr_chars(view_expr(*self.right)) + "]"@,
        decreases self,
    {
        let m = String::from_str("[");
        let l = self.left.to_string();
        let m = m.concat(l.as_str());
        let m = m.concat(" ");
        let o = op_to_string(self.operator);
        let m = m.concat(o.as_str());
        let m = m.concat(" ");
        let v = self.right.to_string();
        let m = m.concat(v.as_str());
        let m = m.concat("]");
        proof {
            assert(m@ =~= "["@ + expr_chars(view_expr(*self.left)) + " "@ + op_chars(
                self.operator,
            ) + " "@ + expr_chars(view_expr(*self.right)) + "]"@);
        }
        m
    }
}

impl IfElseExpression {
    /// Render `If <condition> do`, the consequence, and the alternative
    /// when there is one.
    pub fn to_string(&self) -> (r: String)
        ensures
            r@ == expr_chars(ExprModel::IfElse {
                condition: Box::new(view_expr(*self.condition)),
                consequence: view_stmts(self.consequence.statements@),
                alternative: match self.alternative {
                    Some(b) => Some(view_stmts(b.statements@)),
                    None => None,
                },
            }),
        decreases self,
    {
        let m = String::from_str("If ");
        let c = self.condition.to_string();
        let m = m.concat(c.as_str());
        let m = m.concat(" do \n");
        let cons = self.consequence.to_string();
        let m = m.concat(cons.as_str());
        match &self.alternative {
            Some(alt) => {
                let m = m.concat("else do \n");
                let a = alt.to_string();
                let m = m.concat(a.as_str());
                proof {
                    assert(m@ =~= "If "@ + expr_chars(view_expr(*self.condition)) + " do \n"@
                        + block_chars(view_stmts(self.consequence.statements@)) + "else do \n"@
                        + block_chars(view_stmts(alt.statements@)));
                }
                m
            },
            None => {
                proof {
                    assert(m@ =~= "If "@ + expr_chars(view_expr(*self.condition)) + " do \n"@
                        + block_chars(view_stmts(self.consequence.statements@)));
                }
                m
            },
        }
    }
}

impl FunctionExpression {
    /// Render `Func (<parameters>)` and the body beneath it.
    pub fn to_string(&self) -> (r: String)
        ensures
            r@ == "Func ("@ + params_chars(view_params(self.parameters@)) + ")\n"@ + block_chars(
                view_stmts(self.body.statements@),
            ),
        decreases self,
    {
        let m = String::from_str("Func (");
        proof {
            assert(self.parameters@.skip(0) =~= self.parameters@);
            assert(self.body.statements@.skip(0) =~= self.body.statements@);
        }
        let ps = params_to_string(&self.parameters, 0);
        let m = m.concat(ps.as_str());
        let m = m.concat(")\n");
        let b = block_to_string(&self.body.statements, 0);
        let m = m.concat(b.as_str());
        proof {
            assert(m@ =~= "Func ("@ + params_chars(view_params(self.parameters@)) + ")\n"@
                + block_chars(view_stmts(self.body.statements@)));
        }
        m
    }
}

impl CallExpression {
    /// Render `[<callee> (<arguments>)]`.
    pub fn to_string(&self) -> (r: String)
        ensures
            r@ == "["@ + expr_chars(view_expr(*self.func)) + " ("@ + args_chars(
                view_exprs(self.arguments@),
            ) + ")]"@,
        decreases self,
    {
        let m = String::from_str("[");
        let f = self.func.to_string();
        let m = m.concat(f.as_str());
        let m = m.concat(" (");
        proof {
            assert(self.arguments@.skip(0) =~= self.arguments@);
        }
        let a = call_args_to_string(&self.arguments, 0);
        let m = m.concat(a.as_str());
        let m = m.concat(")]");
        proof {
            assert(m@ =~= "["@ + expr_chars(view_expr(*self.func)) + " ("@ + args_chars(
                view_exprs(self.arguments@),
            ) + ")]"@);
        }
        m
    }
}

impl Statement {
    /// The kind of this statement.
    pub fn get_type(&self) -> (t: NodeType)
        ensures
            t == stmt_node_type(self@),
    {
        match self {
            Statement::Let(_) => NodeType::LetStatement,
            Statement::Return(_) => NodeType::ReturnStatement,
            Statement::Expression(_) => NodeType::ExpressionStatement,
            Statement::Block(_) => NodeType::BlockStatement,
        }
    }
}

impl Expression {
    /// The kind of this expression.
    pub fn get_type(&self) -> (t: NodeType)
        ensures
            t == expr_node_type(self@),
    {
        match self {
            Expression::Identifier(_) => NodeType::IdentifierExpression,
            Expression::Integral(_) => NodeType::IntegralExpression,
            Expression::Bool(_) => NodeType::BoolExpression,
            Expression::Prefix(_) => NodeType::PrefixExpression,
            Expression::Infix(_) => NodeType::InfixExpression,
            Expression::IfElse(_) => NodeType::IfElseExpression,
            Expression::Function(_) => NodeType::FunctionExpression,
            Expression::Call(_) => NodeType::CallExpression,
        }
    }
}

} // verus!
