use vstd::prelude::*;
use vstd::string::*;
use crate::token::{Token, token_text};
use crate::env::{EnvModel, FunModel, lookup, bind};

verus! {

/// Why an evaluation stopped without a value.
#[derive(Clone, Debug, PartialEq, Eq)]
pub enum EvalError {
    /// A form started with this token instead of `(`.
    ExpectedLParen(Token),
    /// A definition's parameter list or body did not start with `(`.
    MissingLParen,
    /// A definition was not closed by `)`.
    ExpectedRParen,
    /// A token that cannot stand where it was found.
    UnexpectedToken(Token),
    /// The program ended where more was needed.
    UnexpectedEnd,
    /// Overflow or division by zero in arithmetic.
    FailedCalculation,
    /// A name bound to neither a variable nor a function.
    InvalidIdent(String),
    /// An assignment whose target is not a name.
    ExpectedVariable,
    /// An assignment whose value is neither a form nor a number.
    ExpectedValue,
    /// A definition without a function name.
    ExpectedFunctionName,
    /// A parameter list holding something other than names.
    InvalidParam,
    /// A call with more arguments than the function has parameters.
    TooManyArguments,
    /// Forms or calls nested deeper than the evaluator allows.
    TooDeep,
}

/// The text that reports an error.
pub open spec fn message_of(e: EvalError) -> Seq<char> {
    match e {
        EvalError::ExpectedLParen(t) => "expect: '(', but got: '"@ + token_text(t) + "'"@,
        EvalError::MissingLParen => "expect: '('"@,
        EvalError::ExpectedRParen => "expect: ')'"@,
        EvalError::UnexpectedToken(t) => "unexpected token: "@ + token_text(t),
        EvalError::UnexpectedEnd => "unexpected end of input"@,
        EvalError::FailedCalculation => "failed calculation"@,
        EvalError::InvalidIdent(name) => "invalid ident: '"@ + name@ + "'"@,
        EvalError::ExpectedVariable => "expect variable"@,
        EvalError::ExpectedValue => "expect value"@,
        EvalError::ExpectedFunctionName => "expect function name"@,
        EvalError::InvalidParam => "invalid parameter"@,
        EvalError::TooManyArguments => "too many arguments"@,
        EvalError::TooDeep => "nesting too deep"@,
    }
}

impl EvalError {
    /// The text that reports this error.
    pub fn message(&self) -> (r: String)
        ensures
            r@ == message_of(*self),
    {
        match self {
            EvalError::ExpectedLParen(t) => {
                let mut r = String::from_str("expect: '(', but got: '");
                let text = t.text();
                r.append(text.as_str());
                r.append("'");
                r
            },
            EvalError::MissingLParen => String::from_str("expect: '('"),
            EvalError::ExpectedRParen => String::from_str("expect: ')'"),
            EvalError::UnexpectedToken(t) => {
                let mut r = String::from_str("unexpected token: ");
                let text = t.text();
                r.append(text.as_str());
                r
            },
            EvalError::UnexpectedEnd => String::from_str("unexpected end of input"),
            EvalError::FailedCalculation => String::from_str("failed calculation"),
            EvalError::InvalidIdent(name) => {
                let mut r = String::from_str("invalid ident: '");
                r.append(name.as_str());
                r.append("'");
                r
            },
            EvalError::ExpectedVariable => String::from_str("expect variable"),
            EvalError::ExpectedValue => String::from_str("expect value"),
            EvalError::ExpectedFunctionName => String::from_str("expect function name"),
            EvalError::InvalidParam => String::from_str("invalid parameter"),
            EvalError::TooManyArguments => String::from_str("too many arguments"),
            EvalError::TooDeep => String::from_str("nesting too deep"),
        }
    }
}

/// Where an evaluation step ends: its result, the cursor position after it,
/// and the environment after it.
pub struct Outcome<T> {
    pub value: Result<T, EvalError>,
    pub pos: int,
    pub env: EnvModel,
}

pub open spec fn fail<T>(e: EvalError, pos: int, env: EnvModel) -> Outcome<T> {
    Outcome { value: Err(e), pos, env }
}

pub open spec fn done<T>(v: T, pos: int, env: EnvModel) -> Outcome<T> {
    Outcome { value: Ok(v), pos, env }
}

pub open spec fn in_range(ts: Seq<Token>, pos: int) -> bool {
    0 <= pos < ts.len()
}

/// Checked arithmetic of an operator token.
pub open spec fn apply(op: Token, a: i32, b: i32) -> Option<i32> {
    match op {
        Token::Plus => a.checked_add(b),
        Token::Minus => a.checked_sub(b),
        Token::Asterisk => a.checked_mul(b),
        Token::Slash => a.checked_div(b),
        _ => None,
    }
}

/// A comparison token applied to two integers: 1 when it holds, else 0.
pub open spec fn compare(op: Token, a: i32, b: i32) -> i32 {
    let holds = match op {
        Token::Eq => a == b,
        Token::Ne => a != b,
        Token::Lt => a < b,
        Token::Le => a <= b,
        Token::Gt => a > b,
        Token::Ge => a >= b,
        _ => false,
    };
    if holds { 1 } else { 0 }
}

pub open spec fn is_arith(t: Token) -> bool {
    t is Plus || t is Minus || t is Asterisk || t is Slash
}

pub open spec fn is_comparison(t: Token) -> bool {
    t is Eq || t is Ne || t is Lt || t is Le || t is Gt || t is Ge
}

/// The position just past the `)` that closes a form whose `(` was read
/// before `pos`, with `depth` further forms still open; the end of the
/// tokens if none does.
pub open spec fn skip_close(ts: Seq<Token>, pos: int, depth: int) -> int
    decreases ts.len() - pos,
{
    if !in_range(ts, pos) {
        pos
    } else if ts[pos] is RParen && depth == 0 {
        pos + 1
    } else {
        let d = if ts[pos] is LParen {
            depth + 1
        } else if ts[pos] is RParen {
            depth - 1
        } else {
            depth
        };
        skip_close(ts, pos + 1, d)
    }
}

/// Reads parameter names up to `)`, after the names in `acc`.
pub open spec fn param_list(ts: Seq<Token>, pos: int, acc: Seq<String>) -> (Result<Seq<String>, EvalError>, int)
    decreases ts.len() - pos,
{
    if !in_range(ts, pos) {
        (Ok(acc), pos)
    } else {
        match ts[pos] {
            Token::RParen => (Ok(acc), pos + 1),
            Token::Symbol(s) => param_list(ts, pos + 1, acc.push(s)),
            _ => (Err(EvalError::InvalidParam), pos + 1),
        }
    }
}

/// A function definition, read after the word `defun`: a name, a
/// parenthesised parameter list and a body form kept as tokens, then the `)`
/// that closes the definition.
pub open spec fn definition(ts: Seq<Token>, pos: int, env: EnvModel) -> Outcome<i32> {
    if !in_range(ts, pos) {
        fail(EvalError::ExpectedFunctionName, pos, env)
    } else {
        match ts[pos] {
            Token::Symbol(name) => {
                let p = pos + 1;
                if !in_range(ts, p) {
                    fail(EvalError::UnexpectedEnd, p, env)
                } else if !(ts[p] is LParen) {
                    fail(EvalError::MissingLParen, p + 1, env)
                } else {
                    let (params, q) = param_list(ts, p + 1, Seq::empty());
                    match params {
                        Err(e) => fail(e, q, env),
                        Ok(params) => if !in_range(ts, q) {
                            fail(EvalError::UnexpectedEnd, q, env)
                        } else if !(ts[q] is LParen) {
                            fail(EvalError::MissingLParen, q + 1, env)
                        } else {
                            let end = skip_close(ts, q + 1, 0);
                            let body = seq![Token::LParen] + ts.subrange(q + 1, end);
                            let env2 = EnvModel {
                                funs: bind(env.funs, name, FunModel { params, body }),
                                ..env
                            };
                            if !in_range(ts, end) {
                                fail(EvalError::UnexpectedEnd, end, env2)
                            } else if !(ts[end] is RParen) {
                                fail(EvalError::ExpectedRParen, end + 1, env2)
                            } else {
                                done(0, end + 1, env2)
                            }
                        },
                    }
                }
            },
            _ => fail(EvalError::ExpectedFunctionName, pos + 1, env),
        }
    }
}

/// One operand: a nested form, a number, or the value of a variable.
pub open spec fn operand(ts: Seq<Token>, pos: int, env: EnvModel, d: nat) -> Outcome<i32>
    decreases d, 0int, 0int,
{
    if !in_range(ts, pos) {
        fail(EvalError::UnexpectedEnd, pos, env)
    } else {
        match ts[pos] {
            Token::LParen => if d == 0 {
                fail(EvalError::TooDeep, pos, env)
            } else {
                form(ts, pos, env, (d - 1) as nat)
            },
            Token::Number(n) => done(n, pos + 1, env),
            Token::Symbol(s) => match lookup(env.vars, s@) {
                Some(v) => done(v, pos + 1, env),
                None => fail(EvalError::InvalidIdent(s), pos + 1, env),
            },
            _ => fail(EvalError::UnexpectedToken(ts[pos]), pos, env),
        }
    }
}

/// Folds the operands up to `)` into `acc` with the checked operator `op`.
pub open spec fn fold(ts: Seq<Token>, pos: int, env: EnvModel, d: nat, op: Token, acc: i32) -> Outcome<i32>
    decreases d, 1int, ts.len() - pos,
{
    if !in_range(ts, pos) {
        done(acc, pos, env)
    } else if ts[pos] is RParen {
        done(acc, pos + 1, env)
    } else {
        let o = operand(ts, pos, env, d);
        match o.value {
            Err(e) => fail(e, o.pos, o.env),
            Ok(v) => match apply(op, acc, v) {
                None => fail(EvalError::FailedCalculation, o.pos, o.env),
                // an operand that yields a value has consumed a token
                Some(r) => if pos < o.pos <= ts.len() {
                    fold(ts, o.pos, o.env, d, op, r)
                } else {
                    done(r, o.pos, o.env)
                },
            },
        }
    }
}

/// Chains a comparison over the operands up to `)`: each step compares the
/// previous 0/1 result with the next operand.
pub open spec fn chain(ts: Seq<Token>, pos: int, env: EnvModel, d: nat, op: Token, target: i32) -> Outcome<i32>
    decreases d, 1int, ts.len() - pos,
{
    if !in_range(ts, pos) {
        done(target, pos, env)
    } else if ts[pos] is RParen {
        done(target, pos + 1, env)
    } else {
        let o = operand(ts, pos, env, d);
        match o.value {
            Err(e) => fail(e, o.pos, o.env),
            Ok(v) => if pos < o.pos <= ts.len() {
                chain(ts, o.pos, o.env, d, op, compare(op, target, v))
            } else {
                done(compare(op, target, v), o.pos, o.env)
            },
        }
    }
}

/// The conditional, read after `if`: one branch is evaluated, the other
/// skipped, and the `)` that closes the conditional is read on both paths.
pub open spec fn cond(ts: Seq<Token>, pos: int, env: EnvModel, d: nat) -> Outcome<i32>
    decreases d, 2int, 0int,
{
    let c = operand(ts, pos, env, d);
    match c.value {
        Err(e) => fail(e, c.pos, c.env),
        Ok(cv) => if cv != 0 {
            let t = operand(ts, c.pos, c.env, d);
            match t.value {
                Err(e) => fail(e, t.pos, t.env),
                Ok(tv) => done(tv, skip_close(ts, t.pos, 0), t.env),
            }
        } else if !in_range(ts, c.pos) {
            fail(EvalError::UnexpectedEnd, c.pos, c.env)
        } else {
            let q = if ts[c.pos] is LParen {
                skip_close(ts, c.pos + 1, 0)
            } else {
                c.pos + 1
            };
            let e = operand(ts, q, c.env, d);
            match e.value {
                Err(err) => fail(err, e.pos, e.env),
                Ok(ev) => done(ev, skip_close(ts, e.pos, 0), e.env),
            }
        },
    }
}

/// The (name, value) pairs of an assignment, up to `)`.
pub open spec fn assignments(ts: Seq<Token>, pos: int, env: EnvModel, d: nat) -> Outcome<i32>
    decreases d, 1int, ts.len() - pos,
{
    if !in_range(ts, pos) {
        done(0, pos, env)
    } else if ts[pos] is RParen {
        done(0, pos + 1, env)
    } else {
        match ts[pos] {
            Token::Symbol(name) => {
                let p = pos + 1;
                let val = if in_range(ts, p) && ts[p] is LParen {
                    operand(ts, p, env, d)
                } else if in_range(ts, p) && ts[p] is Number {
                    done(ts[p]->Number_0, p + 1, env)
                } else {
                    fail(EvalError::ExpectedValue, if in_range(ts, p) { p + 1 } else { p }, env)
                };
                match val.value {
                    Err(e) => fail(e, val.pos, val.env),
                    Ok(v) => {
                        let env2 = EnvModel { vars: bind(val.env.vars, name, v), ..val.env };
                        if pos < val.pos <= ts.len() {
                            assignments(ts, val.pos, env2, d)
                        } else {
                            done(0, val.pos, env2)
                        }
                    },
                }
            },
            _ => fail(EvalError::ExpectedVariable, pos + 1, env),
        }
    }
}

/// The arguments of a call, up to `)`, each bound to the next parameter in `bound`.
pub open spec fn arguments(
    ts: Seq<Token>,
    pos: int,
    env: EnvModel,
    d: nat,
    params: Seq<String>,
    i: int,
    bound: Seq<(String, i32)>,
) -> Outcome<Seq<(String, i32)>>
    decreases d, 1int, ts.len() - pos,
{
    if !in_range(ts, pos) {
        done(bound, pos, env)
    } else if ts[pos] is RParen {
        done(bound, pos + 1, env)
    } else if !(0 <= i < params.len()) {
        fail(EvalError::TooManyArguments, pos, env)
    } else {
        let o = operand(ts, pos, env, d);
        match o.value {
            Err(e) => fail(e, o.pos, o.env),
            Ok(v) => {
                let b2 = bind(bound, params[i], v);
                if pos < o.pos <= ts.len() {
                    arguments(ts, o.pos, o.env, d, params, i + 1, b2)
                } else {
                    done(b2, o.pos, o.env)
                }
            },
        }
    }
}

/// A call of `f`, read after its name: the body runs in a fresh scope that
/// holds the arguments and the caller's functions, and the caller's scope
/// keeps only what evaluating the arguments did to it.
pub open spec fn call(ts: Seq<Token>, pos: int, env: EnvModel, d: nat, f: FunModel) -> Outcome<i32>
    decreases d, 2int, 0int,
{
    let a = arguments(ts, pos, env, d, f.params, 0, Seq::empty());
    match a.value {
        Err(e) => fail(e, a.pos, a.env),
        Ok(bound) => if d == 0 {
            fail(EvalError::TooDeep, a.pos, a.env)
        } else {
            let r = form(f.body, 0, EnvModel { vars: bound, funs: a.env.funs }, (d - 1) as nat);
            Outcome { value: r.value, pos: a.pos, env: a.env }
        },
    }
}

/// One form at `pos`, with `d` levels of nesting left. After an assignment or
/// a definition, which have no value of their own, the next form is
/// evaluated and gives the value (0 at the end of the tokens).
pub open spec fn form(ts: Seq<Token>, pos: int, env: EnvModel, d: nat) -> Outcome<i32>
    decreases d, 3int, ts.len() - pos,
{
    if in_range(ts, pos) && !(ts[pos] is LParen) {
        fail(EvalError::ExpectedLParen(ts[pos]), pos + 1, env)
    } else {
        let p = if in_range(ts, pos) { pos + 1 } else { pos };
        if !in_range(ts, p) {
            done(0, p, env)
        } else {
            let head = ts[p];
            if is_arith(head) {
                let first = operand(ts, p + 1, env, d);
                match first.value {
                    Err(e) => fail(e, first.pos, first.env),
                    Ok(v) => fold(ts, first.pos, first.env, d, head, v),
                }
            } else if is_comparison(head) {
                let first = operand(ts, p + 1, env, d);
                match first.value {
                    Err(e) => fail(e, first.pos, first.env),
                    Ok(v) => chain(ts, first.pos, first.env, d, head, v),
                }
            } else {
                match head {
                    Token::If => cond(ts, p + 1, env, d),
                    Token::Symbol(s) => if s@ == "setq"@ || s@ == "defun"@ {
                        let a = if s@ == "setq"@ {
                            assignments(ts, p + 1, env, d)
                        } else {
                            definition(ts, p + 1, env)
                        };
                        match a.value {
                            Err(e) => fail(e, a.pos, a.env),
                            Ok(_) => if !in_range(ts, a.pos) {
                                done(0, a.pos, a.env)
                            } else if pos < a.pos {
                                form(ts, a.pos, a.env, d)
                            } else {
                                done(0, a.pos, a.env)
                            },
                        }
                    } else {
                        match lookup(env.vars, s@) {
                            Some(v) => done(v, p + 1, env),
                            None => match lookup(env.funs, s@) {
                                Some(f) => call(ts, p + 1, env, d, f),
                                None => fail(EvalError::InvalidIdent(s), p, env),
                            },
                        }
                    },
                    Token::Number(n) => done(n, p, env),
                    _ => fail(EvalError::UnexpectedToken(head), p, env),
                }
            }
        }
    }
}

} // verus!
