use vstd::prelude::*;
use vstd::string::*;
use crate::token::{Token, copy_tokens};
use crate::parser::Parser;
use crate::env::{Env, EnvModel, Function, names_unique};
use crate::semantics::{EvalError, message_of, Outcome, apply, compare, skip_close, param_list, definition, operand, fold, chain, cond, assignments, arguments, call, form};

verus! {

/// How deeply forms and calls may nest before evaluation gives up with
/// `EvalError::TooDeep`. Each level of nesting costs a few stack frames;
/// this many levels fit in the 2 MiB stack of a spawned thread.
pub const MAX_DEPTH: usize = 1024;

/// Whether an evaluation step ended as `o` describes.
pub open spec fn reached<T>(o: Outcome<T>, r: Result<T, EvalError>, pos: usize, env: EnvModel) -> bool {
    r == o.value && pos as int == o.pos && env == o.env
}

/// Reads up to and including the `)` that closes a form whose `(` was
/// already read; returns the tokens read.
#[verifier::loop_isolation(false)]
fn read_to_close(tokens: &mut Parser) -> (body: Vec<Token>)
    requires
        old(tokens).pos <= old(tokens).tokens@.len(),
    ensures
        final(tokens).tokens@ == old(tokens).tokens@,
        final(tokens).pos == skip_close(old(tokens).tokens@, old(tokens).pos as int, 0),
        old(tokens).pos <= final(tokens).pos <= old(tokens).tokens@.len(),
        body@ == old(tokens).tokens@.subrange(old(tokens).pos as int, final(tokens).pos as int),
{
    let ghost ts = tokens.tokens@;
    let ghost start = tokens.pos as int;
    let mut body: Vec<Token> = Vec::new();
    let mut count: usize = 0;
    loop
        invariant
            tokens.tokens@ == ts,
            start <= tokens.pos <= ts.len(),
            count <= tokens.pos,
            body@ == ts.subrange(start, tokens.pos as int),
            skip_close(ts, start, 0) == skip_close(ts, tokens.pos as int, count as int),
        decreases ts.len() - tokens.pos,
    {
        let ghost before = tokens.pos as int;
        match tokens.next() {
            None => {
                break;
            },
            Some(t) => {
                let is_open = matches!(t, Token::LParen);
                let is_close = matches!(t, Token::RParen);
                body.push(t);
                assert(body@ =~= ts.subrange(start, tokens.pos as int));
                if is_close && count == 0 {
                    break;
                }
                if is_open {
                    count += 1;
                } else if is_close {
                    count -= 1;
                }
            },
        }
    }
    body
}

/// Evaluates one operand: a nested form, a number, or a variable.
fn eval_operand(tokens: &mut Parser, env: &mut Env, depth: usize) -> (r: Result<i32, EvalError>)
    requires
        old(tokens).pos <= old(tokens).tokens@.len(),
    ensures
        final(tokens).tokens@ == old(tokens).tokens@,
        names_unique(old(env)@) ==> names_unique(final(env)@),
        reached(operand(old(tokens).tokens@, old(tokens).pos as int, old(env)@, depth as nat), r, final(tokens).pos, final(env)@),
        old(tokens).pos <= final(tokens).pos <= old(tokens).tokens@.len(),
        r is Ok ==> old(tokens).pos < final(tokens).pos,
    decreases depth, 0int,
{
    match tokens.peek() {
        None => Err(EvalError::UnexpectedEnd),
        Some(Token::LParen) => {
            if depth == 0 {
                Err(EvalError::TooDeep)
            } else {
                eval_form(tokens, env, depth - 1)
            }
        },
        Some(Token::Number(n)) => {
            tokens.consume();
            Ok(n)
        },
        Some(Token::Symbol(s)) => {
            tokens.consume();
            match env.get_var(&s) {
                Some(v) => Ok(v),
                None => Err(EvalError::InvalidIdent(s)),
            }
        },
        Some(t) => Err(EvalError::UnexpectedToken(t)),
    }
}

fn apply_op(op: &Token, a: i32, b: i32) -> (r: Option<i32>)
    ensures
        r == apply(*op, a, b),
{
    match op {
        Token::Plus => a.checked_add(b),
        Token::Minus => a.checked_sub(b),
        Token::Asterisk => a.checked_mul(b),
        Token::Slash => a.checked_div(b),
        _ => None,
    }
}

fn compare_op(op: &Token, a: i32, b: i32) -> (r: i32)
    ensures
        r == compare(*op, a, b),
{
    let holds = match op {
        Token::Eq => a == b,
        Token::Ne => a != b,
        Token::Lt => a < b,
        Token::Le => a <= b,
        Token::Gt => a > b,
        Token::Ge => a >= b,
        _ => false,
    };
    if holds { 1 } else { 0 }
}

/// Folds the remaining operands of an arithmetic form into `first`.
#[verifier::loop_isolation(false)]
fn eval_fold(tokens: &mut Parser, env: &mut Env, depth: usize, op: &Token, first: i32) -> (r: Result<i32, EvalError>)
    requires
        old(tokens).pos <= old(tokens).tokens@.len(),
    ensures
        final(tokens).tokens@ == old(tokens).tokens@,
        names_unique(old(env)@) ==> names_unique(final(env)@),
        reached(fold(old(tokens).tokens@, old(tokens).pos as int, old(env)@, depth as nat, *op, first), r, final(tokens).pos, final(env)@),
        old(tokens).pos <= final(tokens).pos <= old(tokens).tokens@.len(),
    decreases depth, 1int,
{
    let ghost ts = tokens.tokens@;
    let ghost start = tokens.pos;
    let ghost goal = fold(ts, tokens.pos as int, env@, depth as nat, *op, first);
    let mut acc = first;
    loop
        invariant
            tokens.tokens@ == ts,
            names_unique(old(env)@) ==> names_unique(env@),
            start <= tokens.pos <= ts.len(),
            goal == fold(ts, tokens.pos as int, env@, depth as nat, *op, acc),
        decreases ts.len() - tokens.pos,
    {
        match tokens.peek() {
            None => return Ok(acc),
            Some(Token::RParen) => {
                tokens.consume();
                return Ok(acc);
            },
            _ => {},
        }
        let v = match eval_operand(tokens, env, depth) {
            Ok(v) => v,
            Err(e) => return Err(e),
        };
        match apply_op(op, acc, v) {
            Some(x) => acc = x,
            None => return Err(EvalError::FailedCalculation),
        }
    }
}

/// Chains a comparison over the remaining operands, starting from `first`.
#[verifier::loop_isolation(false)]
fn eval_chain(tokens: &mut Parser, env: &mut Env, depth: usize, op: &Token, first: i32) -> (r: Result<i32, EvalError>)
    requires
        old(tokens).pos <= old(tokens).tokens@.len(),
    ensures
        final(tokens).tokens@ == old(tokens).tokens@,
        names_unique(old(env)@) ==> names_unique(final(env)@),
        reached(chain(old(tokens).tokens@, old(tokens).pos as int, old(env)@, depth as nat, *op, first), r, final(tokens).pos, final(env)@),
        old(tokens).pos <= final(tokens).pos <= old(tokens).tokens@.len(),
    decreases depth, 1int,
{
    let ghost ts = tokens.tokens@;
    let ghost start = tokens.pos;
    let ghost goal = chain(ts, tokens.pos as int, env@, depth as nat, *op, first);
    let mut target = first;
    loop
        invariant
            tokens.tokens@ == ts,
            names_unique(old(env)@) ==> names_unique(env@),
            start <= tokens.pos <= ts.len(),
            goal == chain(ts, tokens.pos as int, env@, depth as nat, *op, target),
        decreases ts.len() - tokens.pos,
    {
        match tokens.peek() {
            None => return Ok(target),
            Some(Token::RParen) => {
                tokens.consume();
                return Ok(target);
            },
            _ => {},
        }
        let v = match eval_operand(tokens, env, depth) {
            Ok(v) => v,
            Err(e) => return Err(e),
        };
        target = compare_op(op, target, v);
    }
}

/// Evaluates a conditional after `if`.
fn eval_cond(tokens: &mut Parser, env: &mut Env, depth: usize) -> (r: Result<i32, EvalError>)
    requires
        old(tokens).pos <= old(tokens).tokens@.len(),
    ensures
        final(tokens).tokens@ == old(tokens).tokens@,
        names_unique(old(env)@) ==> names_unique(final(env)@),
        reached(cond(old(tokens).tokens@, old(tokens).pos as int, old(env)@, depth as nat), r, final(tokens).pos, final(env)@),
        old(tokens).pos <= final(tokens).pos <= old(tokens).tokens@.len(),
    decreases depth, 2int,
{
    let c = match eval_operand(tokens, env, depth) {
        Ok(v) => v,
        Err(e) => return Err(e),
    };
    if c != 0 {
        let t = match eval_operand(tokens, env, depth) {
            Ok(v) => v,
            Err(e) => return Err(e),
        };
        let _ = read_to_close(tokens);
        Ok(t)
    } else {
        match tokens.next() {
            None => return Err(EvalError::UnexpectedEnd),
            Some(Token::LParen) => {
                let _ = read_to_close(tokens);
            },
            Some(_) => {},
        }
        let e = match eval_operand(tokens, env, depth) {
            Ok(v) => v,
            Err(err) => return Err(err),
        };
        let _ = read_to_close(tokens);
        Ok(e)
    }
}

/// Performs the assignments of a `setq` form.
#[verifier::loop_isolation(false)]
fn eval_assignments(tokens: &mut Parser, env: &mut Env, depth: usize) -> (r: Result<i32, EvalError>)
    requires
        old(tokens).pos <= old(tokens).tokens@.len(),
    ensures
        final(tokens).tokens@ == old(tokens).tokens@,
        names_unique(old(env)@) ==> names_unique(final(env)@),
        reached(assignments(old(tokens).tokens@, old(tokens).pos as int, old(env)@, depth as nat), r, final(tokens).pos, final(env)@),
        old(tokens).pos <= final(tokens).pos <= old(tokens).tokens@.len(),
    decreases depth, 1int,
{
    let ghost ts = tokens.tokens@;
    let ghost start = tokens.pos;
    let ghost goal = assignments(ts, tokens.pos as int, env@, depth as nat);
    loop
        invariant
            tokens.tokens@ == ts,
            names_unique(old(env)@) ==> names_unique(env@),
            start <= tokens.pos <= ts.len(),
            goal == assignments(ts, tokens.pos as int, env@, depth as nat),
        decreases ts.len() - tokens.pos,
    {
        match tokens.peek() {
            None => return Ok(0),
            Some(Token::RParen) => {
                tokens.consume();
                return Ok(0);
            },
            _ => {},
        }
        let name = match tokens.next() {
            Some(Token::Symbol(s)) => s,
            _ => return Err(EvalError::ExpectedVariable),
        };
        let v = match tokens.peek() {
            Some(Token::LParen) => match eval_operand(tokens, env, depth) {
                Ok(v) => v,
                Err(e) => return Err(e),
            },
            _ => match tokens.next() {
                Some(Token::Number(n)) => n,
                _ => return Err(EvalError::ExpectedValue),
            },
        };
        env.set_var(name, v);
    }
}

/// Reads a `defun` form after its keyword and registers the function.
#[verifier::loop_isolation(false)]
fn eval_definition(tokens: &mut Parser, env: &mut Env) -> (r: Result<i32, EvalError>)
    requires
        old(tokens).pos <= old(tokens).tokens@.len(),
    ensures
        final(tokens).tokens@ == old(tokens).tokens@,
        names_unique(old(env)@) ==> names_unique(final(env)@),
        reached(definition(old(tokens).tokens@, old(tokens).pos as int, old(env)@), r, final(tokens).pos, final(env)@),
        old(tokens).pos <= final(tokens).pos <= old(tokens).tokens@.len(),
{
    let ghost ts = tokens.tokens@;
    let name = match tokens.next() {
        Some(Token::Symbol(s)) => s,
        _ => return Err(EvalError::ExpectedFunctionName),
    };
    match tokens.next() {
        Some(Token::LParen) => {},
        Some(_) => return Err(EvalError::MissingLParen),
        None => return Err(EvalError::UnexpectedEnd),
    }
    let ghost p0 = tokens.pos as int;
    let mut params: Vec<String> = Vec::new();
    loop
        invariant
            tokens.tokens@ == ts,
            names_unique(old(env)@) ==> names_unique(env@),
            p0 <= tokens.pos <= ts.len(),
            param_list(ts, p0, Seq::empty()) == param_list(ts, tokens.pos as int, params@),
        decreases ts.len() - tokens.pos,
    {
        match tokens.next() {
            None => break,
            Some(Token::RParen) => break,
            Some(Token::Symbol(s)) => params.push(s),
            Some(_) => return Err(EvalError::InvalidParam),
        }
    }
    match tokens.next() {
        Some(Token::LParen) => {},
        Some(_) => return Err(EvalError::MissingLParen),
        None => return Err(EvalError::UnexpectedEnd),
    }
    let ghost q1 = tokens.pos as int;
    let rest = read_to_close(tokens);
    let mut body: Vec<Token> = Vec::new();
    body.push(Token::LParen);
    let mut i: usize = 0;
    while i < rest.len()
        invariant
            i <= rest.len(),
            body@ == seq![Token::LParen] + rest@.subrange(0, i as int),
        decreases rest.len() - i,
    {
        body.push(rest[i].copy());
        i += 1;
        assert(body@ =~= seq![Token::LParen] + rest@.subrange(0, i as int));
    }
    assert(rest@.subrange(0, i as int) =~= rest@);
    env.set_fun(name, Function { params, body });
    match tokens.next() {
        Some(Token::RParen) => Ok(0),
        Some(_) => Err(EvalError::ExpectedRParen),
        None => Err(EvalError::UnexpectedEnd),
    }
}

/// Evaluates the arguments of a call, binding each to the next parameter in `frame`.
#[verifier::loop_isolation(false)]
fn eval_arguments(tokens: &mut Parser, env: &mut Env, depth: usize, params: &Vec<String>, frame: &mut Env) -> (r: Result<(), EvalError>)
    requires
        old(tokens).pos <= old(tokens).tokens@.len(),
    ensures
        ({
            let o = arguments(old(tokens).tokens@, old(tokens).pos as int, old(env)@, depth as nat, params@, 0, old(frame)@.vars);
            &&& final(tokens).pos == o.pos
            &&& final(env)@ == o.env
            &&& (r is Ok <==> o.value is Ok)
            &&& (r matches Err(e) ==> o.value == Err::<Seq<(String, i32)>, EvalError>(e))
            &&& (o.value matches Ok(b) ==> final(frame)@.vars == b)
        }),
        final(tokens).tokens@ == old(tokens).tokens@,
        names_unique(old(env)@) ==> names_unique(final(env)@),
        old(tokens).pos <= final(tokens).pos <= old(tokens).tokens@.len(),
    decreases depth, 1int,
{
    let ghost ts = tokens.tokens@;
    let ghost start = tokens.pos;
    let ghost goal = arguments(ts, tokens.pos as int, env@, depth as nat, params@, 0, frame@.vars);
    let mut i: usize = 0;
    loop
        invariant
            tokens.tokens@ == ts,
            names_unique(old(env)@) ==> names_unique(env@),
            start <= tokens.pos <= ts.len(),
            i <= tokens.pos,
            goal == arguments(ts, tokens.pos as int, env@, depth as nat, params@, i as int, frame@.vars),
        decreases ts.len() - tokens.pos,
    {
        match tokens.peek() {
            None => return Ok(()),
            Some(Token::RParen) => {
                tokens.consume();
                return Ok(());
            },
            _ => {},
        }
        if i >= params.len() {
            return Err(EvalError::TooManyArguments);
        }
        let name = params[i].clone();
        let v = match eval_operand(tokens, env, depth) {
            Ok(v) => v,
            Err(e) => return Err(e),
        };
        frame.set_var(name, v);
        i += 1;
    }
}

/// Calls `f`, whose name was just read.
fn eval_call(tokens: &mut Parser, env: &mut Env, depth: usize, f: &Function) -> (r: Result<i32, EvalError>)
    requires
        old(tokens).pos <= old(tokens).tokens@.len(),
    ensures
        final(tokens).tokens@ == old(tokens).tokens@,
        names_unique(old(env)@) ==> names_unique(final(env)@),
        reached(call(old(tokens).tokens@, old(tokens).pos as int, old(env)@, depth as nat, f@), r, final(tokens).pos, final(env)@),
        old(tokens).pos <= final(tokens).pos <= old(tokens).tokens@.len(),
    decreases depth, 2int,
{
    let mut frame = Env::new();
    match eval_arguments(tokens, env, depth, &f.params, &mut frame) {
        Ok(()) => {},
        Err(e) => return Err(e),
    }
    if depth == 0 {
        return Err(EvalError::TooDeep);
    }
    frame.adopt_funs(env);
    let mut body = Parser::new(copy_tokens(&f.body));
    eval_form(&mut body, &mut frame, depth - 1)
}

/// Evaluates the form at the cursor with `depth` levels of nesting left.
#[verifier::loop_isolation(false)]
pub fn eval_form(tokens: &mut Parser, env: &mut Env, depth: usize) -> (r: Result<i32, EvalError>)
    ensures
        final(tokens).tokens@ == old(tokens).tokens@,
        names_unique(old(env)@) ==> names_unique(final(env)@),
        reached(form(old(tokens).tokens@, old(tokens).pos as int, old(env)@, depth as nat), r, final(tokens).pos, final(env)@),
        old(tokens).pos < old(tokens).tokens@.len() ==> old(tokens).pos < final(tokens).pos <= old(tokens).tokens@.len(),
        old(tokens).pos >= old(tokens).tokens@.len() ==> final(tokens).pos == old(tokens).pos,
    decreases depth, 3int,
{
    let ghost ts = tokens.tokens@;
    let ghost start = tokens.pos as int;
    let ghost goal = form(ts, tokens.pos as int, env@, depth as nat);
    let setq_word = String::from_str("setq");
    let defun_word = String::from_str("defun");
    loop
        invariant
            tokens.tokens@ == ts,
            names_unique(old(env)@) ==> names_unique(env@),
            goal == form(ts, tokens.pos as int, env@, depth as nat),
            start < ts.len() ==> start <= tokens.pos < ts.len(),
            start >= ts.len() ==> tokens.pos == start,
            setq_word@ == "setq"@,
            defun_word@ == "defun"@,
        decreases ts.len() - tokens.pos,
    {
        let ghost here = tokens.pos as int;
        match tokens.next() {
            Some(Token::LParen) => {},
            Some(t) => return Err(EvalError::ExpectedLParen(t)),
            None => {},
        }
        let head = match tokens.peek() {
            None => return Ok(0),
            Some(t) => t,
        };
        match head {
            Token::Plus | Token::Minus | Token::Asterisk | Token::Slash => {
                tokens.consume();
                let first = match eval_operand(tokens, env, depth) {
                    Ok(v) => v,
                    Err(e) => return Err(e),
                };
                return eval_fold(tokens, env, depth, &head, first);
            },
            Token::Eq | Token::Ne | Token::Lt | Token::Le | Token::Gt | Token::Ge => {
                tokens.consume();
                let first = match eval_operand(tokens, env, depth) {
                    Ok(v) => v,
                    Err(e) => return Err(e),
                };
                return eval_chain(tokens, env, depth, &head, first);
            },
            Token::If => {
                tokens.consume();
                return eval_cond(tokens, env, depth);
            },
            Token::Symbol(s) => {
                if s == setq_word {
                    tokens.consume();
                    match eval_assignments(tokens, env, depth) {
                        Ok(_) => {},
                        Err(e) => return Err(e),
                    }
                } else if s == defun_word {
                    tokens.consume();
                    match eval_definition(tokens, env) {
                        Ok(_) => {},
                        Err(e) => return Err(e),
                    }
                } else {
                    match env.get_var(&s) {
                        Some(v) => {
                            tokens.consume();
                            return Ok(v);
                        },
                        None => {},
                    }
                    match env.get_fun(&s) {
                        Some(f) => {
                            tokens.consume();
                            return eval_call(tokens, env, depth, &f);
                        },
                        None => return Err(EvalError::InvalidIdent(s)),
                    }
                }
            },
            Token::Number(n) => return Ok(n),
            _ => return Err(EvalError::UnexpectedToken(head)),
        }
        if tokens.eof() {
            return Ok(0);
        }
    }
}

/// The result of evaluating the program at the cursor against `env`, with
/// an error reported as its message.
pub open spec fn program(ts: Seq<Token>, pos: int, env: EnvModel) -> Outcome<i32> {
    form(ts, pos, env, MAX_DEPTH as nat)
}

/// Evaluates the form at the cursor (and, after an assignment or a
/// definition, the forms that follow it) against `env`.
///
/// Nesting is bounded by `MAX_DEPTH` levels: a nested form, and a call's
/// body, each take one level, so a chain of recursive calls may go about
/// a third as deep as that. Past the bound the result is the error
/// "nesting too deep" instead of a stack overflow.
pub fn eval(tokens: &mut Parser, env: &mut Env) -> (r: Result<i32, String>)
    ensures
        ({
            let o = program(old(tokens).tokens@, old(tokens).pos as int, old(env)@);
            &&& final(tokens).pos == o.pos
            &&& final(env)@ == o.env
            &&& (r is Ok <==> o.value is Ok)
            &&& (r matches Ok(v) ==> o.value == Ok::<i32, EvalError>(v))
            &&& (r matches Err(m) ==> o.value matches Err(e) && m@ == message_of(e))
        }),
        final(tokens).tokens@ == old(tokens).tokens@,
        names_unique(old(env)@) ==> names_unique(final(env)@),
{
    match eval_form(tokens, env, MAX_DEPTH) {
        Ok(v) => Ok(v),
        Err(e) => Err(e.message()),
    }
}

} // verus!
