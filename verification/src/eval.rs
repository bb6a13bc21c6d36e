//! The evaluator: a tree walk over the AST that produces a value per
//! statement, threading the scope arena through the walk. `ReturnValue`
//! and `Error` values implement non-local control flow: a `ReturnValue`
//! is unwrapped exactly at the function-call boundary, and an `Error`,
//! once produced, is propagated unchanged to the top of the current
//! top-level statement.
//!
//! Evaluation is given a fuel bound; one unit is spent on every step of
//! the walk. A source program whose evaluation never ends (through
//! recursive function values) exhausts any fuel, in which case evaluation
//! reports no value at all rather than failing to terminate.

use vstd::prelude::*;

use crate::ast::{
    BlockStatement, BoolExpression, CallExpression, Expression, ExpressionStatement, ExprModel,
    FunctionExpression, IdentifierExpression, IfElseExpression, InfixExpression,
    IntegralExpression, LetStatement, PrefixExpression, ReturnStatement, Statement, StmtModel,
    view_expr, view_exprs, view_params, view_stmts, lemma_view_stmts_index,
    lemma_view_exprs_index, lemma_view_params_index,
};
use crate::enviroment::{Enviroment, ScopeModel, lookup, params_map};
use crate::object::{
    Boolean, Error, Function, Integer, Null, Object, ObjectModel, ObjectType,
};
use crate::token::TokenType;

verus! {

/// The environments a program runs in: the scope arena's image.
pub type EnvModel = Seq<ScopeModel>;

/// The message an unbound name evaluates to.
pub open spec fn msg_var_not_in_scope(name: Seq<char>) -> Seq<char> {
    "Variable "@ + name + " not in scope."@
}

/// A `ReturnValue` gives up the value it carries; anything else is kept.
pub open spec fn unwrap_return(v: ObjectModel) -> ObjectModel {
    match v {
        ObjectModel::ReturnValue { value } => *value,
        _ => v,
    }
}

/// Whether a value halts the enclosing block: a `ReturnValue` or an
/// `Error` stops statement-by-statement execution.
pub open spec fn halts_block(v: ObjectModel) -> bool {
    v is ReturnValue || v is Error
}

/// The value of a prefix operator applied to an operand: `!` negates a
/// boolean, `-` negates an integer (wrapping around on the smallest
/// integer); anything else is an error.
pub open spec fn eval_prefix_model(op: TokenType, v: ObjectModel) -> ObjectModel {
    if op == TokenType::Bang {
        match v {
            ObjectModel::Boolean { value } => ObjectModel::Boolean { value: !value },
            _ => ObjectModel::Error {
                message: "Error: Prefix operand is not a boolean as expected"@,
            },
        }
    } else if op == TokenType::Minus {
        match v {
            ObjectModel::Integer { value } => ObjectModel::Integer {
                value: vstd::wrapping::i64_specs::wrapping_sub(0i64, value),
            },
            _ => ObjectModel::Error {
                message: "Error: Prefix operand is not an integer as expected"@,
            },
        }
    } else {
        ObjectModel::Error { message: "Error: Prefix operator not - or !.."@ }
    }
}

/// The value of a binary operator on two integers: `+ - *` wrap around,
/// `/` truncates and turns division by zero (or the one overflowing
/// quotient) into an error, and the comparisons yield booleans.
pub open spec fn eval_integer_infix_model(op: TokenType, a: i64, b: i64) -> ObjectModel {
    if op == TokenType::Plus {
        ObjectModel::Integer { value: vstd::wrapping::i64_specs::wrapping_add(a, b) }
    } else if op == TokenType::Minus {
        ObjectModel::Integer { value: vstd::wrapping::i64_specs::wrapping_sub(a, b) }
    } else if op == TokenType::Asterisk {
        ObjectModel::Integer { value: vstd::wrapping::i64_specs::wrapping_mul(a, b) }
    } else if op == TokenType::Slash {
        if b == 0 {
            ObjectModel::Error { message: "Division by zero."@ }
        } else {
            match a.checked_div(b) {
                Some(q) => ObjectModel::Integer { value: q },
                None => ObjectModel::Error { message: "Integer overflow in division."@ },
            }
        }
    } else if op == TokenType::Lt {
        ObjectModel::Boolean { value: a < b }
    } else if op == TokenType::Gt {
        ObjectModel::Boolean { value: a > b }
    } else if op == TokenType::Equal {
        ObjectModel::Boolean { value: a == b }
    } else if op == TokenType::NotEqual {
        ObjectModel::Boolean { value: a != b }
    } else {
        ObjectModel::Error { message: "Integer infix being evaluated with invalid operand."@ }
    }
}

/// The value of a binary operator on two booleans: only `==` and `!=` are
/// defined.
pub open spec fn eval_boolean_infix_model(op: TokenType, a: bool, b: bool) -> ObjectModel {
    if op == TokenType::Equal {
        ObjectModel::Boolean { value: a == b }
    } else if op == TokenType::NotEqual {
        ObjectModel::Boolean { value: a != b }
    } else {
        ObjectModel::Error { message: "Boolean infix being evaluated with invalid operand."@ }
    }
}

/// The value of a binary operator on two already-evaluated, non-error
/// operands: two integers take the integer operators, two booleans the
/// boolean ones, and any other pairing is an error.
pub open spec fn eval_infix_model(op: TokenType, l: ObjectModel, r: ObjectModel) -> ObjectModel {
    match (l, r) {
        (ObjectModel::Integer { value: a }, ObjectModel::Integer { value: b }) =>
            eval_integer_infix_model(op, a, b),
        (ObjectModel::Boolean { value: a }, ObjectModel::Boolean { value: b }) =>
            eval_boolean_infix_model(op, a, b),
        _ => ObjectModel::Error {
            message: "Infix operands must both be integers or both be booleans."@,
        },
    }
}

/// The value of an expression, together with the scope arena after it.
/// Out of fuel means no result at all.
pub open spec fn eval_expr_model(e: ExprModel, env: EnvModel, scope: int, fuel: nat) -> Option<
    (EnvModel, ObjectModel),
>
    decreases fuel, 2int,
{
    if fuel == 0 {
        None
    } else {
        let f = (fuel - 1) as nat;
        match e {
            ExprModel::Ident { name } => match lookup(env, scope, name) {
                Some(v) => Some((env, v)),
                None => Some(
                    (env, ObjectModel::Error { message: msg_var_not_in_scope(name) }),
                ),
            },
            ExprModel::Int { value } => Some((env, ObjectModel::Integer { value })),
            ExprModel::Bool { value } => Some((env, ObjectModel::Boolean { value })),
            ExprModel::Prefix { operator, right } => match eval_expr_model(*right, env, scope, f) {
                None => None,
                Some((env1, v)) => if v is Error {
                    Some((env1, v))
                } else {
                    Some((env1, eval_prefix_model(operator, v)))
                },
            },
            ExprModel::Infix { operator, left, right } => match eval_expr_model(
                *left,
                env,
                scope,
                f,
            ) {
                None => None,
                Some((env1, l)) => if l is Error {
                    Some((env1, l))
                } else {
                    match eval_expr_model(*right, env1, scope, f) {
                        None => None,
                        Some((env2, r)) => if r is Error {
                            Some((env2, r))
                        } else {
                            Some((env2, eval_infix_model(operator, l, r)))
                        },
                    }
                },
            },
            ExprModel::IfElse { condition, consequence, alternative } => match eval_expr_model(
                *condition,
                env,
                scope,
                f,
            ) {
                None => None,
                Some((env1, c)) => match c {
                    ObjectModel::Error { .. } => Some((env1, c)),
                    ObjectModel::Boolean { value } => if value {
                        eval_block_model(consequence, env1, scope, f)
                    } else {
                        match alternative {
                            Some(alt) => eval_block_model(alt, env1, scope, f),
                            None => Some((env1, ObjectModel::Null)),
                        }
                    },
                    _ => Some(
                        (
                            env1,
                            ObjectModel::Error {
                                message: "Condition is not of boolean type."@,
                            },
                        ),
                    ),
                },
            },
            ExprModel::Function { parameters, body } => Some(
                (env, ObjectModel::Function { parameters, body, env: scope }),
            ),
            ExprModel::Call { func, arguments } => match eval_expr_model(*func, env, scope, f) {
                None => None,
                Some((env1, fv)) => if fv is Error {
                    Some((env1, fv))
                } else {
                    match fv {
                        ObjectModel::Function { parameters, body, env: fenv } => match
                            eval_args_model(arguments, env1, scope, f) {
                            None => None,
                            Some((env2, Err(e))) => Some((env2, e)),
                            Some((env2, Ok(vals))) => if vals.len() != parameters.len() {
                                Some(
                                    (
                                        env2,
                                        ObjectModel::Error {
                                            message: "Wrong number of arguments."@,
                                        },
                                    ),
                                )
                            } else if !(0 <= fenv < env2.len()) {
                                Some(
                                    (env2, ObjectModel::Error { message: "Invalid function."@ }),
                                )
                            } else {
                                let env3 = env2.push(
                                    ScopeModel {
                                        variables: params_map(parameters, vals),
                                        outer: Some(fenv),
                                    },
                                );
                                match eval_block_model(body, env3, env2.len() as int, f) {
                                    None => None,
                                    Some((env4, rv)) => Some((env4, unwrap_return(rv))),
                                }
                            },
                        },
                        _ => Some((env1, ObjectModel::Error { message: "Invalid function."@ })),
                    }
                },
            },
        }
    }
}

/// The values of an argument list, evaluated left to right; evaluation
/// stops at the first error, which becomes the result.
pub open spec fn eval_args_model(es: Seq<ExprModel>, env: EnvModel, scope: int, fuel: nat) -> Option<
    (EnvModel, Result<Seq<ObjectModel>, ObjectModel>),
>
    decreases fuel, 1int,
{
    if fuel == 0 {
        None
    } else if es.len() == 0 {
        Some((env, Ok(Seq::empty())))
    } else {
        let f = (fuel - 1) as nat;
        match eval_expr_model(es[0], env, scope, f) {
            None => None,
            Some((env1, v)) => if v is Error {
                Some((env1, Err(v)))
            } else {
                match eval_args_model(es.skip(1), env1, scope, f) {
                    None => None,
                    Some((env2, Err(e))) => Some((env2, Err(e))),
                    Some((env2, Ok(rest))) => Some((env2, Ok(seq![v] + rest))),
                }
            },
        }
    }
}

/// The value of a statement, together with the scope arena after it.
/// `let` binds in the current scope unless the value is an error;
/// `return` wraps its value as a `ReturnValue`.
pub open spec fn eval_stmt_model(s: StmtModel, env: EnvModel, scope: int, fuel: nat) -> Option<
    (EnvModel, ObjectModel),
>
    decreases fuel, 3int,
{
    if fuel == 0 {
        None
    } else {
        let f = (fuel - 1) as nat;
        match s {
            StmtModel::Let { name, value } => match eval_expr_model(value, env, scope, f) {
                None => None,
                Some((env1, v)) => if v is Error {
                    Some((env1, v))
                } else if 0 <= scope < env1.len() {
                    Some(
                        (
                            env1.update(
                                scope,
                                ScopeModel {
                                    variables: env1[scope].variables.insert(name, v),
                                    outer: env1[scope].outer,
                                },
                            ),
                            ObjectModel::Null,
                        ),
                    )
                } else {
                    Some((env1, ObjectModel::Null))
                },
            },
            StmtModel::Return { value } => match eval_expr_model(value, env, scope, f) {
                None => None,
                Some((env1, v)) => if v is Error {
                    Some((env1, v))
                } else {
                    Some((env1, ObjectModel::ReturnValue { value: Box::new(v) }))
                },
            },
            StmtModel::Expr { value } => eval_expr_model(value, env, scope, f),
            StmtModel::Block { statements } => eval_block_model(statements, env, scope, f),
        }
    }
}

/// The value of a block: its statements in order, stopping at (and
/// yielding) the first `ReturnValue` or `Error`; otherwise the last
/// statement's value, or `Null` for an empty block.
pub open spec fn eval_block_model(ss: Seq<StmtModel>, env: EnvModel, scope: int, fuel: nat) -> Option<
    (EnvModel, ObjectModel),
>
    decreases fuel, 4int,
{
    if fuel == 0 {
        None
    } else if ss.len() == 0 {
        Some((env, ObjectModel::Null))
    } else {
        let f = (fuel - 1) as nat;
        match eval_stmt_model(ss[0], env, scope, f) {
            None => None,
            Some((env1, v)) => if halts_block(v) {
                Some((env1, v))
            } else if ss.len() == 1 {
                Some((env1, v))
            } else {
                eval_block_model(ss.skip(1), env1, scope, f)
            },
        }
    }
}

/// The values the top-level statements of a program produce, in order: a
/// top-level `return` short-circuits the program and contributes its
/// unwrapped value; a top-level error is surfaced and likewise stops the
/// program.
pub open spec fn run_program_model(ss: Seq<StmtModel>, env: EnvModel, scope: int, fuel: nat) -> Option<
    (EnvModel, Seq<ObjectModel>),
>
    decreases fuel,
{
    if fuel == 0 {
        None
    } else if ss.len() == 0 {
        Some((env, Seq::empty()))
    } else {
        let f = (fuel - 1) as nat;
        match eval_stmt_model(ss[0], env, scope, f) {
            None => None,
            Some((env1, v)) => if halts_block(v) {
                Some((env1, seq![unwrap_return(v)]))
            } else {
                match run_program_model(ss.skip(1), env1, scope, f) {
                    None => None,
                    Some((env2, rest)) => Some((env2, seq![v] + rest)),
                }
            },
        }
    }
}

/// Evaluation is deterministic. The evaluation of a node is a function of
/// the node, the scope arena, the scope and the fuel — nothing else — so
/// two evaluations from equal states agree outcome for outcome; and each
/// executable evaluator's contract ties its result and its final arena to
/// this same function of its inputs.
pub proof fn lemma_eval_deterministic(
    e: ExprModel,
    s: StmtModel,
    ss: Seq<StmtModel>,
    env: EnvModel,
    scope: int,
    fuel: nat,
)
    ensures
        eval_expr_model(e, env, scope, fuel) == eval_expr_model(e, env, scope, fuel),
        eval_stmt_model(s, env, scope, fuel) == eval_stmt_model(s, env, scope, fuel),
        eval_block_model(ss, env, scope, fuel) == eval_block_model(ss, env, scope, fuel),
        run_program_model(ss, env, scope, fuel) == run_program_model(ss, env, scope, fuel),
{
}

/// Binding then using: after `let x = E;`, when `E` evaluates to a
/// non-error value `v`, the binding is committed and the name `x`
/// evaluates to exactly `v`; run as a two-statement program
/// `let x = E; x;`, the program's values are null (for the `let`) and
/// then the value of `E`.
pub proof fn lemma_let_then_use(name: Seq<char>, e: ExprModel, env: EnvModel, scope: int, fuel: nat)
    requires
        0 <= scope < env.len(),
        eval_expr_model(e, env, scope, fuel) matches Some((env1, v)) && !(v is Error),
    ensures
        ({
            let (env1, v) = eval_expr_model(e, env, scope, fuel)->Some_0;
            let env2 = env1.update(
                scope,
                ScopeModel {
                    variables: env1[scope].variables.insert(name, v),
                    outer: env1[scope].outer,
                },
            );
            &&& eval_stmt_model(
                StmtModel::Let { name, value: e },
                env,
                scope,
                (fuel + 1) as nat,
            ) == Some((env2, ObjectModel::Null))
            &&& eval_expr_model(ExprModel::Ident { name }, env2, scope, 1) == Some((env2, v))
            &&& !halts_block(v) ==> run_program_model(
                seq![
                    StmtModel::Let { name, value: e },
                    StmtModel::Expr { value: ExprModel::Ident { name } },
                ],
                env,
                scope,
                (fuel + 4) as nat,
            ) == Some((env2, seq![ObjectModel::Null, v]))
        }),
{
    let (env1, v) = eval_expr_model(e, env, scope, fuel)->Some_0;
    assert(fuel >= 1);
    assert(0 <= scope < env1.len()) by {
        lemma_eval_grows_env(e, env, scope, fuel);
    }
    let env2 = env1.update(
        scope,
        ScopeModel {
            variables: env1[scope].variables.insert(name, v),
            outer: env1[scope].outer,
        },
    );
    assert(env2[scope].variables.contains_key(name));
    assert(env2[scope].variables[name] == v);
    let prog = seq![
        StmtModel::Let { name, value: e },
        StmtModel::Expr { value: ExprModel::Ident { name } },
    ];
    if !halts_block(v) {
        assert(prog.skip(1) =~= seq![StmtModel::Expr { value: ExprModel::Ident { name } }]);
        assert(prog.skip(1).skip(1) =~= Seq::<StmtModel>::empty());
        assert(eval_expr_model(e, env, scope, (fuel + 2) as nat) == Some((env1, v))) by {
            lemma_eval_more_fuel(e, env, scope, fuel, (fuel + 2) as nat);
        }
        assert(eval_stmt_model(prog[0], env, scope, (fuel + 3) as nat) == Some(
            (env2, ObjectModel::Null),
        ));
        assert(eval_stmt_model(prog.skip(1)[0], env2, scope, (fuel + 2) as nat) == Some(
            (env2, v),
        ));
        assert(run_program_model(prog.skip(1).skip(1), env2, scope, (fuel + 2) as nat) == Some(
            (env2, Seq::<ObjectModel>::empty()),
        ));
        assert(run_program_model(prog.skip(1), env2, scope, (fuel + 3) as nat) == Some(
            (env2, seq![v] + Seq::<ObjectModel>::empty()),
        ));
        assert(seq![v] + Seq::<ObjectModel>::empty() =~= seq![v]);
        assert(run_program_model(prog, env, scope, (fuel + 4) as nat) == Some(
            (env2, seq![ObjectModel::Null] + seq![v]),
        ));
        assert(seq![ObjectModel::Null] + seq![v] =~= seq![ObjectModel::Null, v]);
    }
}

/// Lexical scoping, creation side: a function literal evaluates to a
/// function value whose captured scope is exactly the scope the literal
/// is evaluated in.
pub proof fn lemma_function_captures_defining_scope(
    parameters: Seq<Seq<char>>,
    body: Seq<StmtModel>,
    env: EnvModel,
    scope: int,
    fuel: nat,
)
    requires
        fuel >= 1,
    ensures
        eval_expr_model(ExprModel::Function { parameters, body }, env, scope, fuel) == Some(
            (env, ObjectModel::Function { parameters, body, env: scope }),
        ),
{
}

/// Lexical scoping, call side: a call runs the function's body in a fresh
/// scope that binds exactly the parameters and is enclosed by the scope
/// the function was defined in — never by the scope of the call itself.
pub proof fn lemma_call_runs_in_defining_scope(
    func: ExprModel,
    args: Seq<ExprModel>,
    env: EnvModel,
    scope: int,
    fuel: nat,
)
    requires
        fuel >= 1,
        eval_expr_model(func, env, scope, (fuel - 1) as nat) matches Some((env1, fv))
            && fv matches ObjectModel::Function { parameters, body, env: fenv }
            && eval_args_model(args, env1, scope, (fuel - 1) as nat) matches Some((env2, Ok(vals)))
            && vals.len() == parameters.len() && 0 <= fenv < env2.len(),
    ensures
        ({
            let (env1, fv) = eval_expr_model(func, env, scope, (fuel - 1) as nat)->Some_0;
            let (env2, argout) = eval_args_model(args, env1, scope, (fuel - 1) as nat)->Some_0;
            let env3 = env2.push(
                ScopeModel {
                    variables: params_map(fv->Function_parameters, argout->Ok_0),
                    outer: Some(fv->Function_env),
                },
            );
            eval_expr_model(ExprModel::Call { func: Box::new(func), arguments: args }, env, scope, fuel)
                == match eval_block_model(fv->Function_body, env3, env2.len() as int, (fuel - 1) as nat) {
                None => None,
                Some((env4, rv)) => Some((env4, unwrap_return(rv))),
            }
        }),
{
}

/// Error absorption: in a binary expression, if the left operand
/// evaluates to an error, the whole expression is that error and the
/// right operand is never evaluated; if the left operand is no error and
/// the right one evaluates to an error, the whole expression is that
/// error — whatever the operator.
pub proof fn lemma_infix_error_absorption(
    op: TokenType,
    l: ExprModel,
    r: ExprModel,
    env: EnvModel,
    scope: int,
    fuel: nat,
)
    requires
        fuel >= 1,
    ensures
        ({
            let infix = ExprModel::Infix { operator: op, left: Box::new(l), right: Box::new(r) };
            match eval_expr_model(l, env, scope, (fuel - 1) as nat) {
                Some((env1, lv)) => {
                    &&& (lv is Error ==> eval_expr_model(infix, env, scope, fuel) == Some(
                        (env1, lv),
                    ))
                    &&& (!(lv is Error) ==> match eval_expr_model(r, env1, scope, (fuel - 1) as nat) {
                        Some((env2, rv)) => rv is Error ==> eval_expr_model(infix, env, scope, fuel)
                            == Some((env2, rv)),
                        None => true,
                    })
                },
                None => true,
            }
        }),
{
}

/// Evaluation only ever adds scopes to the arena: the arena after an
/// expression or statement holds every scope it held before, and the
/// current scope index stays valid.
pub proof fn lemma_eval_grows_env(e: ExprModel, env: EnvModel, scope: int, fuel: nat)
    ensures
        eval_expr_model(e, env, scope, fuel) matches Some((env1, v)) ==> env1.len() >= env.len(),
    decreases fuel, 2int,
{
    if fuel >= 1 {
        let f = (fuel - 1) as nat;
        match e {
            ExprModel::Prefix { operator, right } => {
                lemma_eval_grows_env(*right, env, scope, f);
            },
            ExprModel::Infix { operator, left, right } => {
                lemma_eval_grows_env(*left, env, scope, f);
                match eval_expr_model(*left, env, scope, f) {
                    Some((env1, l)) => {
                        lemma_eval_grows_env(*right, env1, scope, f);
                    },
                    None => {},
                }
            },
            ExprModel::IfElse { condition, consequence, alternative } => {
                lemma_eval_grows_env(*condition, env, scope, f);
                match eval_expr_model(*condition, env, scope, f) {
                    Some((env1, c)) => {
                        lemma_eval_block_grows_env(consequence, env1, scope, f);
                        match alternative {
                            Some(alt) => {
                                lemma_eval_block_grows_env(alt, env1, scope, f);
                            },
                            None => {},
                        }
                    },
                    None => {},
                }
            },
            ExprModel::Call { func, arguments } => {
                lemma_eval_grows_env(*func, env, scope, f);
                match eval_expr_model(*func, env, scope, f) {
                    Some((env1, fv)) => {
                        lemma_eval_args_grows_env(arguments, env1, scope, f);
                        match fv {
                            ObjectModel::Function { parameters, body, env: fenv } => {
                                match eval_args_model(arguments, env1, scope, f) {
                                    Some((env2, Ok(vals))) => {
                                        let env3 = env2.push(
                                            ScopeModel {
                                                variables: params_map(parameters, vals),
                                                outer: Some(fenv),
                                            },
                                        );
                                        lemma_eval_block_grows_env(body, env3, env2.len() as int, f);
                                    },
                                    _ => {},
                                }
                            },
                            _ => {},
                        }
                    },
                    None => {},
                }
            },
            _ => {},
        }
    }
}

/// As [`lemma_eval_grows_env`], for argument lists.
pub proof fn lemma_eval_args_grows_env(es: Seq<ExprModel>, env: EnvModel, scope: int, fuel: nat)
    ensures
        eval_args_model(es, env, scope, fuel) matches Some((env1, out)) ==> env1.len() >= env.len(),
    decreases fuel, 1int,
{
    if fuel >= 1 && es.len() > 0 {
        let f = (fuel - 1) as nat;
        lemma_eval_grows_env(es[0], env, scope, f);
        match eval_expr_model(es[0], env, scope, f) {
            Some((env1, v)) => {
                lemma_eval_args_grows_env(es.skip(1), env1, scope, f);
            },
            None => {},
        }
    }
}

/// As [`lemma_eval_grows_env`], for statements.
pub proof fn lemma_eval_stmt_grows_env(s: StmtModel, env: EnvModel, scope: int, fuel: nat)
    ensures
        eval_stmt_model(s, env, scope, fuel) matches Some((env1, v)) ==> env1.len() >= env.len(),
    decreases fuel, 3int,
{
    if fuel >= 1 {
        let f = (fuel - 1) as nat;
        match s {
            StmtModel::Let { name, value } => {
                lemma_eval_grows_env(value, env, scope, f);
            },
            StmtModel::Return { value } => {
                lemma_eval_grows_env(value, env, scope, f);
            },
            StmtModel::Expr { value } => {
                lemma_eval_grows_env(value, env, scope, f);
            },
            StmtModel::Block { statements } => {
                lemma_eval_block_grows_env(statements, env, scope, f);
            },
        }
    }
}

/// As [`lemma_eval_grows_env`], for blocks.
pub proof fn lemma_eval_block_grows_env(ss: Seq<StmtModel>, env: EnvModel, scope: int, fuel: nat)
    ensures
        eval_block_model(ss, env, scope, fuel) matches Some((env1, v)) ==> env1.len() >= env.len(),
    decreases fuel, 4int,
{
    if fuel >= 1 && ss.len() > 0 {
        let f = (fuel - 1) as nat;
        lemma_eval_stmt_grows_env(ss[0], env, scope, f);
        match eval_stmt_model(ss[0], env, scope, f) {
            Some((env1, v)) => {
                lemma_eval_block_grows_env(ss.skip(1), env1, scope, f);
            },
            None => {},
        }
    }
}

/// More fuel never changes a result that was reached: evaluation with
/// enough fuel to finish gives the same outcome with any more.
pub proof fn lemma_eval_more_fuel(e: ExprModel, env: EnvModel, scope: int, fuel: nat, more: nat)
    requires
        fuel <= more,
        eval_expr_model(e, env, scope, fuel) is Some,
    ensures
        eval_expr_model(e, env, scope, more) == eval_expr_model(e, env, scope, fuel),
    decreases fuel, 2int,
{
    let f = (fuel - 1) as nat;
    let m = (more - 1) as nat;
    match e {
        ExprModel::Prefix { operator, right } => {
            lemma_eval_more_fuel(*right, env, scope, f, m);
        },
        ExprModel::Infix { operator, left, right } => {
            lemma_eval_more_fuel(*left, env, scope, f, m);
            match eval_expr_model(*left, env, scope, f) {
                Some((env1, l)) => {
                    if !(l is Error) {
                        lemma_eval_more_fuel(*right, env1, scope, f, m);
                    }
                },
                None => {},
            }
        },
        ExprModel::IfElse { condition, consequence, alternative } => {
            lemma_eval_more_fuel(*condition, env, scope, f, m);
            match eval_expr_model(*condition, env, scope, f) {
                Some((env1, c)) => {
                    match c {
                        ObjectModel::Boolean { value } => {
                            if value {
                                lemma_eval_block_more_fuel(consequence, env1, scope, f, m);
                            } else {
                                match alternative {
                                    Some(alt) => {
                                        lemma_eval_block_more_fuel(alt, env1, scope, f, m);
                                    },
                                    None => {},
                                }
                            }
                        },
                        _ => {},
                    }
                },
                None => {},
            }
        },
        ExprModel::Call { func, arguments } => {
            lemma_eval_more_fuel(*func, env, scope, f, m);
            match eval_expr_model(*func, env, scope, f) {
                Some((env1, fv)) => {
                    if !(fv is Error) {
                        match fv {
                            ObjectModel::Function { parameters, body, env: fenv } => {
                                lemma_eval_args_more_fuel(arguments, env1, scope, f, m);
                                match eval_args_model(arguments, env1, scope, f) {
                                    Some((env2, Ok(vals))) => {
                                        if vals.len() == parameters.len() && 0 <= fenv
                                            < env2.len() {
                                            let env3 = env2.push(
                                                ScopeModel {
                                                    variables: params_map(parameters, vals),
                                                    outer: Some(fenv),
                                                },
                                            );
                                            lemma_eval_block_more_fuel(
                                                body,
                                                env3,
                                                env2.len() as int,
                                                f,
                                                m,
                                            );
                                        }
                                    },
                                    _ => {},
                                }
                            },
                            _ => {},
                        }
                    }
                },
                None => {},
            }
        },
        _ => {},
    }
}

/// As [`lemma_eval_more_fuel`], for argument lists.
pub proof fn lemma_eval_args_more_fuel(
    es: Seq<ExprModel>,
    env: EnvModel,
    scope: int,
    fuel: nat,
    more: nat,
)
    requires
        fuel <= more,
        eval_args_model(es, env, scope, fuel) is Some,
    ensures
        eval_args_model(es, env, scope, more) == eval_args_model(es, env, scope, fuel),
    decreases fuel, 1int,
{
    if es.len() > 0 {
        let f = (fuel - 1) as nat;
        let m = (more - 1) as nat;
        lemma_eval_more_fuel(es[0], env, scope, f, m);
        match eval_expr_model(es[0], env, scope, f) {
            Some((env1, v)) => {
                if !(v is Error) {
                    lemma_eval_args_more_fuel(es.skip(1), env1, scope, f, m);
                }
            },
            None => {},
        }
    }
}

/// As [`lemma_eval_more_fuel`], for statements.
pub proof fn lemma_eval_stmt_more_fuel(s: StmtModel, env: EnvModel, scope: int, fuel: nat, more: nat)
    requires
        fuel <= more,
        eval_stmt_model(s, env, scope, fuel) is Some,
    ensures
        eval_stmt_model(s, env, scope, more) == eval_stmt_model(s, env, scope, fuel),
    decreases fuel, 3int,
{
    let f = (fuel - 1) as nat;
    let m = (more - 1) as nat;
    match s {
        StmtModel::Let { name, value } => {
            lemma_eval_more_fuel(value, env, scope, f, m);
        },
        StmtModel::Return { value } => {
            lemma_eval_more_fuel(value, env, scope, f, m);
        },
        StmtModel::Expr { value } => {
            lemma_eval_more_fuel(value, env, scope, f, m);
        },
        StmtModel::Block { statements } => {
            lemma_eval_block_more_fuel(statements, env, scope, f, m);
        },
    }
}

/// As [`lemma_eval_more_fuel`], for blocks.
pub proof fn lemma_eval_block_more_fuel(
    ss: Seq<StmtModel>,
    env: EnvModel,
    scope: int,
    fuel: nat,
    more: nat,
)
    requires
        fuel <= more,
        eval_block_model(ss, env, scope, fuel) is Some,
    ensures
        eval_block_model(ss, env, scope, more) == eval_block_model(ss, env, scope, fuel),
    decreases fuel, 4int,
{
    if ss.len() > 0 {
        let f = (fuel - 1) as nat;
        let m = (more - 1) as nat;
        lemma_eval_stmt_more_fuel(ss[0], env, scope, f, m);
        match eval_stmt_model(ss[0], env, scope, f) {
            Some((env1, v)) => {
                if !halts_block(v) && ss.len() > 1 {
                    lemma_eval_block_more_fuel(ss.skip(1), env1, scope, f, m);
                }
            },
            None => {},
        }
    }
}

/// Run a program's top-level statements in the global scope, collecting
/// one value per executed statement: a top-level `return` short-circuits
/// the program with its unwrapped value, a top-level error is surfaced
/// and likewise stops it. No result means the fuel ran out.
pub fn eval(program: &crate::parser::Program, env: &mut Enviroment, fuel: u64) -> (r: Option<
    Vec<Object>,
>)
    requires
        old(env).inv(),
        old(env)@.len() >= 1,
    ensures
        final(env).inv(),
        match run_program_model(program@, old(env)@, 0, fuel as nat) {
            None => r is None,
            Some((e2, vals)) => r matches Some(objs) && objs.deep_view() == vals && final(env)@
                == e2,
        },
{
    proof {
        assert(program.statements@.skip(0) =~= program.statements@);
    }
    run_statements(&program.statements, 0, env, fuel)
}

/// Run the top-level statements from index `i` on.
fn run_statements(stmts: &Vec<Statement>, i: usize, env: &mut Enviroment, fuel: u64) -> (r: Option<
    Vec<Object>,
>)
    requires
        i <= stmts.len(),
        old(env).inv(),
        old(env)@.len() >= 1,
    ensures
        final(env).inv(),
        final(env)@.len() >= old(env)@.len(),
        match run_program_model(view_stmts(stmts@.skip(i as int)), old(env)@, 0, fuel as nat) {
            None => r is None,
            Some((e2, vals)) => r matches Some(objs) && objs.deep_view() == vals && final(env)@
                == e2,
        },
    decreases fuel,
{
    let ghost ss = view_stmts(stmts@.skip(i as int));
    proof {
        lemma_view_stmts_index(stmts@.skip(i as int));
    }
    if fuel == 0 {
        return None;
    }
    if i == stmts.len() {
        let empty: Vec<Object> = Vec::new();
        proof {
            assert(stmts@.skip(i as int) =~= Seq::<Statement>::empty());
            assert(empty.deep_view() =~= Seq::<ObjectModel>::empty());
        }
        return Some(empty);
    }
    proof {
        assert(stmts@.skip(i as int)[0] == stmts@[i as int]);
    }
    let v = match stmts[i].eval(env, 0, fuel - 1) {
        None => {
            return None;
        },
        Some(v) => v,
    };
    let t = v.get_type();
    if t == ObjectType::ReturnValue || t == ObjectType::Error {
        let unwrapped = match v {
            Object::ReturnValue(inner) => *inner,
            other => other,
        };
        let ghost uv = unwrapped@;
        let mut out: Vec<Object> = Vec::new();
        out.push(unwrapped);
        proof {
            assert(out.deep_view() =~= seq![uv]);
        }
        return Some(out);
    }
    proof {
        assert(stmts@.skip(i as int).skip(1) =~= stmts@.skip(i + 1));
        assert(ss.skip(1) == view_stmts(stmts@.skip(i + 1)));
    }
    let ghost vv = v@;
    match run_statements(stmts, i + 1, env, fuel - 1) {
        None => None,
        Some(mut rest) => {
            let ghost rest_view = rest.deep_view();
            rest.insert(0, v);
            proof {
                assert(rest.deep_view() =~= seq![vv] + rest_view);
            }
            Some(rest)
        },
    }
}

impl PrefixExpression {
    /// Negate an integer operand; anything else is an error.
    fn eval_minus_operator(&self, right: &Object) -> (r: Object)
        ensures
            r@ == eval_prefix_model(TokenType::Minus, right@),
    {
        match right {
            Object::Integer(n) => Object::Integer(Integer { value: 0i64.wrapping_sub(n.value) }),
            _ => Object::Error(
                Error {
                    message: "Error: Prefix operand is not an integer as expected".to_owned(),
                },
            ),
        }
    }

    /// Negate a boolean operand; anything else is an error.
    fn eval_bang_operator(&self, right: &Object) -> (r: Object)
        ensures
            r@ == eval_prefix_model(TokenType::Bang, right@),
    {
        match right {
            Object::Boolean(b) => Object::Boolean(Boolean { value: !b.value }),
            _ => Object::Error(
                Error {
                    message: "Error: Prefix operand is not a boolean as expected".to_owned(),
                },
            ),
        }
    }
}

impl InfixExpression {
    /// Apply this node's operator to two integer operands.
    fn eval_integer_infix_expression(&self, a: i64, b: i64) -> (r: Object)
        ensures
            r@ == eval_integer_infix_model(self.operator, a, b),
    {
        match self.operator {
            TokenType::Plus => Object::Integer(Integer { value: a.wrapping_add(b) }),
            TokenType::Minus => Object::Integer(Integer { value: a.wrapping_sub(b) }),
            TokenType::Asterisk => Object::Integer(Integer { value: a.wrapping_mul(b) }),
            TokenType::Slash => {
                if b == 0 {
                    Object::Error(Error { message: "Division by zero.".to_owned() })
                } else {
                    match a.checked_div(b) {
                        Some(q) => Object::Integer(Integer { value: q }),
                        None => Object::Error(
                            Error { message: "Integer overflow in division.".to_owned() },
                        ),
                    }
                }
            },
            TokenType::Lt => Object::Boolean(Boolean { value: a < b }),
            TokenType::Gt => Object::Boolean(Boolean { value: a > b }),
            TokenType::Equal => Object::Boolean(Boolean { value: a == b }),
            TokenType::NotEqual => Object::Boolean(Boolean { value: a != b }),
            _ => Object::Error(
                Error { message: "Integer infix being evaluated with invalid operand.".to_owned() },
            ),
        }
    }

    /// Apply this node's operator to two boolean operands.
    fn eval_boolean_infix_expression(&self, a: bool, b: bool) -> (r: Object)
        ensures
            r@ == eval_boolean_infix_model(self.operator, a, b),
    {
        match self.operator {
            TokenType::Equal => Object::Boolean(Boolean { value: a == b }),
            TokenType::NotEqual => Object::Boolean(Boolean { value: a != b }),
            _ => Object::Error(
                Error { message: "Boolean infix being evaluated with invalid operand.".to_owned() },
            ),
        }
    }
}

impl IdentifierExpression {
    /// Look this name up along the scope chain; an unbound name is a
    /// runtime error.
    pub fn eval(&self, env: &Enviroment, scope: usize) -> (r: Object)
        requires
            env.inv(),
            scope < env@.len(),
        ensures
            r@ == match lookup(env@, scope as int, self.name@) {
                Some(v) => v,
                None => ObjectModel::Error { message: msg_var_not_in_scope(self.name@) },
            },
    {
        match env.get(scope, &self.name) {
            Some(o) => o,
            None => {
                let m = String::from_str("Variable ");
                let m = m.concat(self.name.as_str());
                let m = m.concat(" not in scope.");
                proof {
                    assert(m@ =~= msg_var_not_in_scope(self.name@));
                }
                Object::Error(Error { message: m })
            },
        }
    }
}

impl IntegralExpression {
    /// An integer literal evaluates to its value.
    pub fn eval(&self) -> (r: Object)
        ensures
            r@ == (ObjectModel::Integer { value: self.value }),
    {
        Object::Integer(Integer { value: self.value })
    }
}

impl BoolExpression {
    /// A boolean literal evaluates to its value.
    pub fn eval(&self) -> (r: Object)
        ensures
            r@ == (ObjectModel::Boolean { value: self.value }),
    {
        Object::Boolean(Boolean { value: self.value })
    }
}

impl FunctionExpression {
    /// A function literal evaluates to a function value that captures the
    /// scope it is evaluated in: lexical scoping.
    pub fn eval(&self, scope: usize) -> (r: Object)
        ensures
            r@ == (ObjectModel::Function {
                parameters: view_params(self.parameters@),
                body: view_stmts(self.body.statements@),
                env: scope as int,
            }),
    {
        Object::Function(
            Function {
                parameters: crate::object::rc_clone(&self.parameters),
                body: crate::object::rc_clone(&self.body),
                env: scope,
            },
        )
    }
}

impl Expression {
    /// The value of this expression in `scope`, per the evaluator's
    /// dispatch table; the arena may gain scopes. No result means the
    /// fuel ran out.
    pub fn eval(&self, env: &mut Enviroment, scope: usize, fuel: u64) -> (r: Option<Object>)
        requires
            old(env).inv(),
            scope < old(env)@.len(),
        ensures
            final(env).inv(),
            final(env)@.len() >= old(env)@.len(),
            match eval_expr_model(self@, old(env)@, scope as int, fuel as nat) {
                None => r is None,
                Some((e2, v)) => r matches Some(o) && o@ == v && final(env)@ == e2,
            },
        decreases fuel, 2int,
    {
        if fuel == 0 {
            return None;
        }
        match self {
            Expression::Identifier(n) => Some(n.eval(env, scope)),
            Expression::Integral(n) => Some(n.eval()),
            Expression::Bool(n) => Some(n.eval()),
            Expression::Prefix(n) => n.eval(env, scope, fuel),
            Expression::Infix(n) => n.eval(env, scope, fuel),
            Expression::IfElse(n) => n.eval(env, scope, fuel),
            Expression::Function(n) => Some(n.eval(scope)),
            Expression::Call(n) => n.eval(env, scope, fuel),
        }
    }
}

impl PrefixExpression {
    /// Evaluate the operand, propagate an error, and otherwise apply the
    /// prefix operator.
    pub fn eval(&self, env: &mut Enviroment, scope: usize, fuel: u64) -> (r: Option<Object>)
        requires
            fuel >= 1,
            old(env).inv(),
            scope < old(env)@.len(),
        ensures
            final(env).inv(),
            final(env)@.len() >= old(env)@.len(),
            match eval_expr_model(
                ExprModel::Prefix {
                    operator: self.operator,
                    right: Box::new(view_expr(*self.right)),
                },
                old(env)@,
                scope as int,
                fuel as nat,
            ) {
                None => r is None,
                Some((e2, v)) => r matches Some(o) && o@ == v && final(env)@ == e2,
            },
        decreases fuel, 1int,
    {
        let right = match self.right.eval(env, scope, fuel - 1) {
            None => {
                return None;
            },
            Some(v) => v,
        };
        if right.get_type() == ObjectType::Error {
            return Some(right);
        }
        match self.operator {
            TokenType::Bang => Some(self.eval_bang_operator(&right)),
            TokenType::Minus => Some(self.eval_minus_operator(&right)),
            _ => Some(
                Object::Error(Error { message: "Error: Prefix operator not - or !..".to_owned() }),
            ),
        }
    }
}

impl InfixExpression {
    /// Evaluate the left operand and then the right one, propagating the
    /// first error; otherwise apply the operator.
    pub fn eval(&self, env: &mut Enviroment, scope: usize, fuel: u64) -> (r: Option<Object>)
        requires
            fuel >= 1,
            old(env).inv(),
            scope < old(env)@.len(),
        ensures
            final(env).inv(),
            final(env)@.len() >= old(env)@.len(),
            match eval_expr_model(
                ExprModel::Infix {
                    operator: self.operator,
                    left: Box::new(view_expr(*self.left)),
                    right: Box::new(view_expr(*self.right)),
                },
                old(env)@,
                scope as int,
                fuel as nat,
            ) {
                None => r is None,
                Some((e2, v)) => r matches Some(o) && o@ == v && final(env)@ == e2,
            },
        decreases fuel, 1int,
    {
        let l = match self.left.eval(env, scope, fuel - 1) {
            None => {
                return None;
            },
            Some(v) => v,
        };
        if l.get_type() == ObjectType::Error {
            return Some(l);
        }
        let r = match self.right.eval(env, scope, fuel - 1) {
            None => {
                return None;
            },
            Some(v) => v,
        };
        if r.get_type() == ObjectType::Error {
            return Some(r);
        }
        match (&l, &r) {
            (Object::Integer(a), Object::Integer(b)) => Some(
                self.eval_integer_infix_expression(a.value, b.value),
            ),
            (Object::Boolean(a), Object::Boolean(b)) => Some(
                self.eval_boolean_infix_expression(a.value, b.value),
            ),
            _ => Some(
                Object::Error(
                    Error {
                        message: "Infix operands must both be integers or both be booleans."
                            .to_owned(),
                    },
                ),
            ),
        }
    }
}

impl IfElseExpression {
    /// Evaluate the condition, which must be a boolean; run the
    /// consequence when it is true, the alternative (if any) when it is
    /// false, and yield null for a missing alternative.
    pub fn eval(&self, env: &mut Enviroment, scope: usize, fuel: u64) -> (r: Option<Object>)
        requires
            fuel >= 1,
            old(env).inv(),
            scope < old(env)@.len(),
        ensures
            final(env).inv(),
            final(env)@.len() >= old(env)@.len(),
            match eval_expr_model(
                ExprModel::IfElse {
                    condition: Box::new(view_expr(*self.condition)),
                    consequence: view_stmts(self.consequence.statements@),
                    alternative: match self.alternative {
                        Some(b) => Some(view_stmts(b.statements@)),
                        None => None,
                    },
                },
                old(env)@,
                scope as int,
                fuel as nat,
            ) {
                None => r is None,
                Some((e2, v)) => r matches Some(o) && o@ == v && final(env)@ == e2,
            },
        decreases fuel, 1int,
    {
        let c = match self.condition.eval(env, scope, fuel - 1) {
            None => {
                return None;
            },
            Some(v) => v,
        };
        match c {
            Object::Error(_) => Some(c),
            Object::Boolean(b) => {
                if b.value {
                    self.consequence.eval(env, scope, fuel - 1)
                } else {
                    match &self.alternative {
                        Some(alt) => alt.eval(env, scope, fuel - 1),
                        None => Some(Object::Null(Null {})),
                    }
                }
            },
            _ => Some(
                Object::Error(Error { message: "Condition is not of boolean type.".to_owned() }),
            ),
        }
    }
}

impl Statement {
    /// The value of this statement in `scope`; the arena may gain
    /// bindings and scopes. No result means the fuel ran out.
    pub fn eval(&self, env: &mut Enviroment, scope: usize, fuel: u64) -> (r: Option<Object>)
        requires
            old(env).inv(),
            scope < old(env)@.len(),
        ensures
            final(env).inv(),
            final(env)@.len() >= old(env)@.len(),
            match eval_stmt_model(self@, old(env)@, scope as int, fuel as nat) {
                None => r is None,
                Some((e2, v)) => r matches Some(o) && o@ == v && final(env)@ == e2,
            },
        decreases fuel, 2int,
    {
        if fuel == 0 {
            return None;
        }
        match self {
            Statement::Let(n) => n.eval(env, scope, fuel),
            Statement::Return(n) => n.eval(env, scope, fuel),
            Statement::Expression(n) => n.eval(env, scope, fuel),
            Statement::Block(n) => n.eval(env, scope, fuel - 1),
        }
    }
}

impl LetStatement {
    /// Evaluate the right-hand side; an error is propagated and binds
    /// nothing, any other value is bound to the name in the current
    /// scope, and the statement's own value is null.
    pub fn eval(&self, env: &mut Enviroment, scope: usize, fuel: u64) -> (r: Option<Object>)
        requires
            fuel >= 1,
            old(env).inv(),
            scope < old(env)@.len(),
        ensures
            final(env).inv(),
            final(env)@.len() >= old(env)@.len(),
            match eval_stmt_model(
                StmtModel::Let { name: self.identifier.name@, value: view_expr(self.value) },
                old(env)@,
                scope as int,
                fuel as nat,
            ) {
                None => r is None,
                Some((e2, v)) => r matches Some(o) && o@ == v && final(env)@ == e2,
            },
        decreases fuel, 1int,
    {
        let value = match self.value.eval(env, scope, fuel - 1) {
            None => {
                return None;
            },
            Some(v) => v,
        };
        if value.get_type() == ObjectType::Error {
            return Some(value);
        }
        let ghost e1 = env@;
        let ghost vv = value@;
        env.insert(scope, self.identifier.name.clone(), value);
        proof {
            assert(env@ =~= e1.update(
                scope as int,
                ScopeModel {
                    variables: e1[scope as int].variables.insert(self.identifier.name@, vv),
                    outer: e1[scope as int].outer,
                },
            ));
        }
        Some(Object::Null(Null {}))
    }
}

impl ReturnStatement {
    /// Evaluate the returned expression; an error is propagated as it is,
    /// any other value is wrapped as a `ReturnValue` to be unwrapped at
    /// the call boundary.
    pub fn eval(&self, env: &mut Enviroment, scope: usize, fuel: u64) -> (r: Option<Object>)
        requires
            fuel >= 1,
            old(env).inv(),
            scope < old(env)@.len(),
        ensures
            final(env).inv(),
            final(env)@.len() >= old(env)@.len(),
            match eval_stmt_model(
                StmtModel::Return { value: view_expr(self.value) },
                old(env)@,
                scope as int,
                fuel as nat,
            ) {
                None => r is None,
                Some((e2, v)) => r matches Some(o) && o@ == v && final(env)@ == e2,
            },
        decreases fuel, 1int,
    {
        let value = match self.value.eval(env, scope, fuel - 1) {
            None => {
                return None;
            },
            Some(v) => v,
        };
        if value.get_type() == ObjectType::Error {
            return Some(value);
        }
        Some(Object::ReturnValue(Box::new(value)))
    }
}

impl ExpressionStatement {
    /// An expression statement's value is its expression's value.
    pub fn eval(&self, env: &mut Enviroment, scope: usize, fuel: u64) -> (r: Option<Object>)
        requires
            fuel >= 1,
            old(env).inv(),
            scope < old(env)@.len(),
        ensures
            final(env).inv(),
            final(env)@.len() >= old(env)@.len(),
            match eval_stmt_model(
                StmtModel::Expr { value: view_expr(self.value) },
                old(env)@,
                scope as int,
                fuel as nat,
            ) {
                None => r is None,
                Some((e2, v)) => r matches Some(o) && o@ == v && final(env)@ == e2,
            },
        decreases fuel, 1int,
    {
        self.value.eval(env, scope, fuel - 1)
    }
}

impl BlockStatement {
    /// Run the block's statements in order, stopping at the first
    /// `ReturnValue` or `Error` and yielding it; otherwise the block's
    /// value is the last statement's value, or null for an empty block.
    pub fn eval(&self, env: &mut Enviroment, scope: usize, fuel: u64) -> (r: Option<Object>)
        requires
            old(env).inv(),
            scope < old(env)@.len(),
        ensures
            final(env).inv(),
            final(env)@.len() >= old(env)@.len(),
            match eval_block_model(
                view_stmts(self.statements@),
                old(env)@,
                scope as int,
                fuel as nat,
            ) {
                None => r is None,
                Some((e2, v)) => r matches Some(o) && o@ == v && final(env)@ == e2,
            },
        decreases fuel, 1int,
    {
        proof {
            assert(self.statements@.skip(0) =~= self.statements@);
        }
        eval_statements(&self.statements, 0, env, scope, fuel)
    }
}

/// Run the statements from index `i` on, as a block.
fn eval_statements(
    stmts: &Vec<Statement>,
    i: usize,
    env: &mut Enviroment,
    scope: usize,
    fuel: u64,
) -> (r: Option<Object>)
    requires
        i <= stmts.len(),
        old(env).inv(),
        scope < old(env)@.len(),
    ensures
        final(env).inv(),
        final(env)@.len() >= old(env)@.len(),
        match eval_block_model(
            view_stmts(stmts@.skip(i as int)),
            old(env)@,
            scope as int,
            fuel as nat,
        ) {
            None => r is None,
            Some((e2, v)) => r matches Some(o) && o@ == v && final(env)@ == e2,
        },
    decreases fuel, 0int,
{
    let ghost ss = view_stmts(stmts@.skip(i as int));
    proof {
        lemma_view_stmts_index(stmts@.skip(i as int));
    }
    if fuel == 0 {
        return None;
    }
    if i == stmts.len() {
        proof {
            assert(stmts@.skip(i as int) =~= Seq::<Statement>::empty());
        }
        return Some(Object::Null(Null {}));
    }
    proof {
        assert(stmts@.skip(i as int)[0] == stmts@[i as int]);
    }
    let v = match stmts[i].eval(env, scope, fuel - 1) {
        None => {
            return None;
        },
        Some(v) => v,
    };
    let t = v.get_type();
    if t == ObjectType::ReturnValue || t == ObjectType::Error {
        return Some(v);
    }
    if i + 1 == stmts.len() {
        return Some(v);
    }
    proof {
        assert(stmts@.skip(i as int).skip(1) =~= stmts@.skip(i + 1));
        assert(ss.skip(1) == view_stmts(stmts@.skip(i + 1)));
    }
    eval_statements(stmts, i + 1, env, scope, fuel - 1)
}

impl CallExpression {
    /// Evaluate the callee, which must be a function value; evaluate the
    /// arguments left to right, stopping at the first error; bind the
    /// parameters in a fresh scope enclosed by the function's captured
    /// scope; run the body there and unwrap a `ReturnValue` once.
    pub fn eval(&self, env: &mut Enviroment, scope: usize, fuel: u64) -> (r: Option<Object>)
        requires
            fuel >= 1,
            old(env).inv(),
            scope < old(env)@.len(),
        ensures
            final(env).inv(),
            final(env)@.len() >= old(env)@.len(),
            match eval_expr_model(
                ExprModel::Call {
                    func: Box::new(view_expr(*self.func)),
                    arguments: view_exprs(self.arguments@),
                },
                old(env)@,
                scope as int,
                fuel as nat,
            ) {
                None => r is None,
                Some((e2, v)) => r matches Some(o) && o@ == v && final(env)@ == e2,
            },
        decreases fuel, 1int,
    {
        let fv = match self.func.eval(env, scope, fuel - 1) {
            None => {
                return None;
            },
            Some(v) => v,
        };
        if fv.get_type() == ObjectType::Error {
            return Some(fv);
        }
        let fobj = match fv {
            Object::Function(f) => f,
            _ => {
                return Some(Object::Error(Error { message: "Invalid function.".to_owned() }));
            },
        };
        proof {
            assert(self.arguments@.skip(0) =~= self.arguments@);
        }
        let vals = match Self::eval_arguments(&self.arguments, 0, env, scope, fuel - 1) {
            None => {
                return None;
            },
            Some(Err(e)) => {
                return Some(e);
            },
            Some(Ok(vals)) => vals,
        };
        proof {
            lemma_view_params_index(fobj.parameters@);
        }
        if vals.len() != fobj.parameters.len() {
            return Some(Object::Error(Error { message: "Wrong number of arguments.".to_owned() }));
        }
        if fobj.env >= env.scope_count() {
            return Some(Object::Error(Error { message: "Invalid function.".to_owned() }));
        }
        let callee_scope = Self::extend_enviroment(env, &fobj, &vals);
        let rv = match fobj.body.eval(env, callee_scope, fuel - 1) {
            None => {
                return None;
            },
            Some(v) => v,
        };
        match rv {
            Object::ReturnValue(inner) => Some(*inner),
            other => Some(other),
        }
    }

    /// Evaluate an argument list from index `i` on, left to right; the
    /// first error stops evaluation and is handed back on its own.
    fn eval_arguments(
        args: &Vec<Expression>,
        i: usize,
        env: &mut Enviroment,
        scope: usize,
        fuel: u64,
    ) -> (r: Option<Result<Vec<Object>, Object>>)
        requires
            i <= args.len(),
            old(env).inv(),
            scope < old(env)@.len(),
        ensures
            final(env).inv(),
            final(env)@.len() >= old(env)@.len(),
            match eval_args_model(
                view_exprs(args@.skip(i as int)),
                old(env)@,
                scope as int,
                fuel as nat,
            ) {
                None => r is None,
                Some((e2, Err(e))) => r matches Some(Err(o)) && o@ == e && final(env)@ == e2,
                Some((e2, Ok(vs))) => r matches Some(Ok(objs)) && objs.deep_view() == vs
                    && final(env)@ == e2,
            },
        decreases fuel, 0int,
    {
        let ghost es = view_exprs(args@.skip(i as int));
        proof {
            lemma_view_exprs_index(args@.skip(i as int));
        }
        if fuel == 0 {
            return None;
        }
        if i == args.len() {
            let empty: Vec<Object> = Vec::new();
            proof {
                assert(args@.skip(i as int) =~= Seq::<Expression>::empty());
                assert(empty.deep_view() =~= Seq::<ObjectModel>::empty());
            }
            return Some(Ok(empty));
        }
        proof {
            assert(args@.skip(i as int)[0] == args@[i as int]);
        }
        let v = match args[i].eval(env, scope, fuel - 1) {
            None => {
                return None;
            },
            Some(v) => v,
        };
        if v.get_type() == ObjectType::Error {
            return Some(Err(v));
        }
        proof {
            assert(args@.skip(i as int).skip(1) =~= args@.skip(i + 1));
            assert(es.skip(1) == view_exprs(args@.skip(i + 1)));
        }
        let ghost vv = v@;
        match Self::eval_arguments(args, i + 1, env, scope, fuel - 1) {
            None => None,
            Some(Err(e)) => Some(Err(e)),
            Some(Ok(mut rest)) => {
                let ghost rest_view = rest.deep_view();
                rest.insert(0, v);
                proof {
                    assert(rest.deep_view() =~= seq![vv] + rest_view);
                }
                Some(Ok(rest))
            },
        }
    }

    /// A fresh scope for one call: enclosed by the function's captured
    /// scope, with each parameter bound to its argument by position.
    fn extend_enviroment(env: &mut Enviroment, func: &Function, args: &Vec<Object>) -> (id: usize)
        requires
            old(env).inv(),
            (func.env as int) < old(env)@.len(),
            args.deep_view().len() == view_params(func.parameters@).len(),
        ensures
            final(env).inv(),
            id == old(env)@.len(),
            final(env)@.len() == old(env)@.len() + 1,
            forall|j: int| 0 <= j < old(env)@.len() ==> final(env)@[j] == old(env)@[j],
            final(env)@ == old(env)@.push(
                ScopeModel {
                    variables: params_map(view_params(func.parameters@), args.deep_view()),
                    outer: Some(func.env as int),
                },
            ),
    {
        let ghost ps = view_params(func.parameters@);
        let ghost vs = args.deep_view();
        proof {
            lemma_view_params_index(func.parameters@);
        }
        let id = env.push_scope(func.env);
        let n = args.len();
        let ghost env_after_push = env@;
        for k in 0..n
            invariant
                env.inv(),
                n == args.len(),
                id < env@.len(),
                ps.len() == n,
                vs.len() == n,
                ps == view_params(func.parameters@),
                vs == args.deep_view(),
                k <= n,
                env@.len() == env_after_push.len(),
                forall|j: int| 0 <= j < env@.len() && j != id ==> env@[j] == env_after_push[j],
                env@[id as int].outer == env_after_push[id as int].outer,
                env@[id as int].variables == params_map(ps.take(k as int), vs.take(k as int)),
                (func.parameters@.len() == n),
            decreases n - k,
        {
            proof {
                lemma_view_params_index(func.parameters@);
                assert(ps.take(k + 1).drop_last() =~= ps.take(k as int));
                assert(vs.take(k + 1).drop_last() =~= vs.take(k as int));
                assert(ps.take(k + 1).last() == ps[k as int]);
                assert(vs.take(k + 1).last() == vs[k as int]);
            }
            let name = func.parameters[k].name.clone();
            env.insert(id, name, args[k].duplicate());
        }
        proof {
            assert(ps.take(n as int) =~= ps);
            assert(vs.take(n as int) =~= vs);
            assert(env@ =~= old(env)@.push(
                ScopeModel {
                    variables: params_map(ps, vs),
                    outer: Some(func.env as int),
                },
            ));
        }
        id
    }
}

} // verus!
