use vstd::prelude::*;
use crate::token::Token;
use crate::env::{EnvModel, FunModel, keys_of, slot, lookup, bind, empty_env};
use crate::semantics::{
    EvalError, Outcome, message_of, in_range, skip_close, param_list, definition, operand, fold, chain, cond,
    assignments, arguments, call, form,
};
use crate::lexer::{words, denotes, tokenization};
use crate::eval::{program, MAX_DEPTH};

verus! {

/// Tokens that differ at most in which `String` values carry a symbol's text.
pub open spec fn same_token(a: Token, b: Token) -> bool {
    match a {
        Token::Symbol(x) => b is Symbol && x@ == b->Symbol_0@,
        _ => a == b,
    }
}

pub open spec fn same_tokens(a: Seq<Token>, b: Seq<Token>) -> bool {
    a.len() == b.len() && forall|i: int| 0 <= i < a.len() ==> same_token(#[trigger] a[i], b[i])
}

pub open spec fn same_names(a: Seq<String>, b: Seq<String>) -> bool {
    a.len() == b.len() && forall|i: int| 0 <= i < a.len() ==> (#[trigger] a[i])@ == b[i]@
}

pub open spec fn same_vars(a: Seq<(String, i32)>, b: Seq<(String, i32)>) -> bool {
    a.len() == b.len() && forall|i: int|
        0 <= i < a.len() ==> (#[trigger] a[i]).0@ == b[i].0@ && a[i].1 == b[i].1
}

pub open spec fn same_fun(a: FunModel, b: FunModel) -> bool {
    same_names(a.params, b.params) && same_tokens(a.body, b.body)
}

pub open spec fn same_funs(a: Seq<(String, FunModel)>, b: Seq<(String, FunModel)>) -> bool {
    a.len() == b.len() && forall|i: int|
        0 <= i < a.len() ==> (#[trigger] a[i]).0@ == b[i].0@ && same_fun(a[i].1, b[i].1)
}

/// Environments with the same bindings, name by name.
pub open spec fn same_env(a: EnvModel, b: EnvModel) -> bool {
    same_vars(a.vars, b.vars) && same_funs(a.funs, b.funs)
}

/// Errors of the same kind about the same token or name.
pub open spec fn same_error(x: EvalError, y: EvalError) -> bool {
    match x {
        EvalError::ExpectedLParen(t) => y is ExpectedLParen && same_token(t, y->ExpectedLParen_0),
        EvalError::UnexpectedToken(t) => y is UnexpectedToken && same_token(t, y->UnexpectedToken_0),
        EvalError::InvalidIdent(n) => y is InvalidIdent && n@ == y->InvalidIdent_0@,
        _ => x == y,
    }
}

pub open spec fn same_result(x: Result<i32, EvalError>, y: Result<i32, EvalError>) -> bool {
    match x {
        Ok(v) => y == Ok::<i32, EvalError>(v),
        Err(e) => y is Err && same_error(e, y->Err_0),
    }
}

pub open spec fn same_outcome(a: Outcome<i32>, b: Outcome<i32>) -> bool {
    same_result(a.value, b.value) && a.pos == b.pos && same_env(a.env, b.env)
}

/// Errors of the same kind about the same token or name read the same.
pub proof fn lemma_same_error_message(x: EvalError, y: EvalError)
    requires
        same_error(x, y),
    ensures
        message_of(x) == message_of(y),
{
}

pub open spec fn same_bound(a: Outcome<Seq<(String, i32)>>, b: Outcome<Seq<(String, i32)>>) -> bool {
    &&& a.pos == b.pos
    &&& same_env(a.env, b.env)
    &&& (a.value is Ok <==> b.value is Ok)
    &&& (a.value matches Err(e) ==> b.value is Err && same_error(e, b.value->Err_0))
    &&& (a.value is Ok ==> same_vars(a.value->Ok_0, b.value->Ok_0))
}

proof fn lemma_var_tables(a: Seq<(String, i32)>, b: Seq<(String, i32)>, na: String, nb: String, v: i32)
    requires
        same_vars(a, b),
        na@ == nb@,
    ensures
        keys_of(a) == keys_of(b),
        lookup(a, na@) == lookup(b, na@),
        same_vars(bind(a, na, v), bind(b, nb, v)),
{
    assert(keys_of(a) =~= keys_of(b));
    crate::env::lemma_slot_in_range(a, na@);
    let x = bind(a, na, v);
    let y = bind(b, nb, v);
    match slot(a, na@) {
        Some(j) => {
            assert forall|i: int| 0 <= i < x.len() implies (#[trigger] x[i]).0@ == y[i].0@ && x[i].1 == y[i].1 by {
                assert(a[i].0@ == b[i].0@);
            }
        },
        None => {
            assert forall|i: int| 0 <= i < x.len() implies (#[trigger] x[i]).0@ == y[i].0@ && x[i].1 == y[i].1 by {
                if i < a.len() {
                    assert(a[i].0@ == b[i].0@);
                }
            }
        },
    }
}

proof fn lemma_fun_tables(a: Seq<(String, FunModel)>, b: Seq<(String, FunModel)>, na: String, nb: String, fa: FunModel, fb: FunModel)
    requires
        same_funs(a, b),
        na@ == nb@,
        same_fun(fa, fb),
    ensures
        keys_of(a) == keys_of(b),
        slot(a, na@) == slot(b, na@),
        lookup(a, na@) is Some <==> lookup(b, na@) is Some,
        lookup(a, na@) is Some ==> same_fun(lookup(a, na@)->Some_0, lookup(b, na@)->Some_0),
        same_funs(bind(a, na, fa), bind(b, nb, fb)),
{
    assert(keys_of(a) =~= keys_of(b));
    crate::env::lemma_slot_in_range(a, na@);
}

proof fn lemma_skip_close(a: Seq<Token>, b: Seq<Token>, pos: int, depth: int)
    requires
        same_tokens(a, b),
    ensures
        skip_close(a, pos, depth) == skip_close(b, pos, depth),
        0 <= pos <= a.len() ==> pos <= skip_close(a, pos, depth) <= a.len(),
    decreases a.len() - pos,
{
    if in_range(a, pos) {
        assert(same_token(a[pos], b[pos]));
        let d = if a[pos] is LParen {
            depth + 1
        } else if a[pos] is RParen {
            depth - 1
        } else {
            depth
        };
        lemma_skip_close(a, b, pos + 1, d);
    }
}

proof fn lemma_param_list(a: Seq<Token>, b: Seq<Token>, pos: int, acc_a: Seq<String>, acc_b: Seq<String>)
    requires
        same_tokens(a, b),
        same_names(acc_a, acc_b),
    ensures
        param_list(a, pos, acc_a).1 == param_list(b, pos, acc_b).1,
        param_list(a, pos, acc_a).0 is Ok <==> param_list(b, pos, acc_b).0 is Ok,
        param_list(a, pos, acc_a).0 matches Err(e) ==> param_list(b, pos, acc_b).0 == Err::<Seq<String>, EvalError>(e),
        param_list(a, pos, acc_a).0 is Ok ==> same_names(param_list(a, pos, acc_a).0->Ok_0, param_list(b, pos, acc_b).0->Ok_0),
    decreases a.len() - pos,
{
    if in_range(a, pos) {
        assert(same_token(a[pos], b[pos]));
        if let Token::Symbol(s) = a[pos] {
            let t = b[pos]->Symbol_0;
            let na = acc_a.push(s);
            let nb = acc_b.push(t);
            assert forall|i: int| 0 <= i < na.len() implies (#[trigger] na[i])@ == nb[i]@ by {
                if i < acc_a.len() {
                    assert(na[i] == acc_a[i]);
                    assert(nb[i] == acc_b[i]);
                }
            }
            lemma_param_list(a, b, pos + 1, na, nb);
        }
    }
}

proof fn lemma_definition(a: Seq<Token>, b: Seq<Token>, pos: int, ea: EnvModel, eb: EnvModel)
    requires
        same_tokens(a, b),
        same_env(ea, eb),
    ensures
        same_outcome(definition(a, pos, ea), definition(b, pos, eb)),
{
    if in_range(a, pos) {
        assert(same_token(a[pos], b[pos]));
        if let Token::Symbol(name) = a[pos] {
            let p = pos + 1;
            if in_range(a, p) {
                assert(same_token(a[p], b[p]));
                if a[p] is LParen {
                    lemma_param_list(a, b, p + 1, Seq::empty(), Seq::empty());
                    let (pa, q) = param_list(a, p + 1, Seq::empty());
                    let (pb, _) = param_list(b, p + 1, Seq::empty());
                    if pa is Ok && in_range(a, q) {
                        assert(same_token(a[q], b[q]));
                        if a[q] is LParen {
                            lemma_skip_close(a, b, q + 1, 0);
                            let end = skip_close(a, q + 1, 0);
                            let ba = seq![Token::LParen] + a.subrange(q + 1, end);
                            let bb = seq![Token::LParen] + b.subrange(q + 1, end);
                            assert forall|i: int| 0 <= i < ba.len() implies same_token(#[trigger] ba[i], bb[i]) by {
                                if i > 0 {
                                    assert(ba[i] == a[q + i]);
                                    assert(bb[i] == b[q + i]);
                                }
                            }
                            let fa = FunModel { params: pa->Ok_0, body: ba };
                            let fb = FunModel { params: pb->Ok_0, body: bb };
                            lemma_fun_tables(ea.funs, eb.funs, name, b[pos]->Symbol_0, fa, fb);
                            if in_range(a, end) {
                                assert(same_token(a[end], b[end]));
                            }
                        }
                    }
                }
            }
        }
    }
}

proof fn lemma_operand(a: Seq<Token>, b: Seq<Token>, pos: int, ea: EnvModel, eb: EnvModel, d: nat)
    requires
        same_tokens(a, b),
        same_env(ea, eb),
    ensures
        same_outcome(operand(a, pos, ea, d), operand(b, pos, eb, d)),
    decreases d, 0int, 0int,
{
    if in_range(a, pos) {
        assert(same_token(a[pos], b[pos]));
        match a[pos] {
            Token::LParen => if d > 0 {
                lemma_form(a, b, pos, ea, eb, (d - 1) as nat);
            },
            Token::Symbol(s) => {
                lemma_var_tables(ea.vars, eb.vars, s, b[pos]->Symbol_0, 0);
            },
            _ => {},
        }
    }
}

proof fn lemma_fold(a: Seq<Token>, b: Seq<Token>, pos: int, ea: EnvModel, eb: EnvModel, d: nat, op: Token, acc: i32)
    requires
        same_tokens(a, b),
        same_env(ea, eb),
    ensures
        same_outcome(fold(a, pos, ea, d, op, acc), fold(b, pos, eb, d, op, acc)),
    decreases d, 1int, a.len() - pos,
{
    if in_range(a, pos) {
        assert(same_token(a[pos], b[pos]));
        lemma_operand(a, b, pos, ea, eb, d);
        let o = operand(a, pos, ea, d);
        let ob = operand(b, pos, eb, d);
        if let Ok(v) = o.value {
            if let Some(r) = crate::semantics::apply(op, acc, v) {
                if pos < o.pos <= a.len() && !(a[pos] is RParen) {
                    lemma_fold(a, b, o.pos, o.env, ob.env, d, op, r);
                }
            }
        }
    }
}

proof fn lemma_chain(a: Seq<Token>, b: Seq<Token>, pos: int, ea: EnvModel, eb: EnvModel, d: nat, op: Token, target: i32)
    requires
        same_tokens(a, b),
        same_env(ea, eb),
    ensures
        same_outcome(chain(a, pos, ea, d, op, target), chain(b, pos, eb, d, op, target)),
    decreases d, 1int, a.len() - pos,
{
    if in_range(a, pos) {
        assert(same_token(a[pos], b[pos]));
        lemma_operand(a, b, pos, ea, eb, d);
        let o = operand(a, pos, ea, d);
        let ob = operand(b, pos, eb, d);
        if let Ok(v) = o.value {
            if pos < o.pos <= a.len() && !(a[pos] is RParen) {
                lemma_chain(a, b, o.pos, o.env, ob.env, d, op, crate::semantics::compare(op, target, v));
            }
        }
    }
}

proof fn lemma_cond(a: Seq<Token>, b: Seq<Token>, pos: int, ea: EnvModel, eb: EnvModel, d: nat)
    requires
        same_tokens(a, b),
        same_env(ea, eb),
    ensures
        same_outcome(cond(a, pos, ea, d), cond(b, pos, eb, d)),
    decreases d, 2int, 0int,
{
    lemma_operand(a, b, pos, ea, eb, d);
    let c = operand(a, pos, ea, d);
    let cb = operand(b, pos, eb, d);
    if let Ok(cv) = c.value {
        if cv != 0 {
            lemma_operand(a, b, c.pos, c.env, cb.env, d);
            let t = operand(a, c.pos, c.env, d);
            lemma_skip_close(a, b, t.pos, 0);
        } else if in_range(a, c.pos) {
            assert(same_token(a[c.pos], b[c.pos]));
            lemma_skip_close(a, b, c.pos + 1, 0);
            let q = if a[c.pos] is LParen {
                skip_close(a, c.pos + 1, 0)
            } else {
                c.pos + 1
            };
            lemma_operand(a, b, q, c.env, cb.env, d);
            lemma_skip_close(a, b, operand(a, q, c.env, d).pos, 0);
        }
    }
}

proof fn lemma_assignments(a: Seq<Token>, b: Seq<Token>, pos: int, ea: EnvModel, eb: EnvModel, d: nat)
    requires
        same_tokens(a, b),
        same_env(ea, eb),
    ensures
        same_outcome(assignments(a, pos, ea, d), assignments(b, pos, eb, d)),
    decreases d, 1int, a.len() - pos,
{
    if in_range(a, pos) {
        assert(same_token(a[pos], b[pos]));
        if let Token::Symbol(name) = a[pos] {
            let p = pos + 1;
            if in_range(a, p) {
                assert(same_token(a[p], b[p]));
            }
            if in_range(a, p) && a[p] is LParen {
                lemma_operand(a, b, p, ea, eb, d);
            }
            let val = if in_range(a, p) && a[p] is LParen {
                operand(a, p, ea, d)
            } else if in_range(a, p) && a[p] is Number {
                crate::semantics::done(a[p]->Number_0, p + 1, ea)
            } else {
                crate::semantics::fail(EvalError::ExpectedValue, if in_range(a, p) { p + 1 } else { p }, ea)
            };
            let valb = if in_range(b, p) && b[p] is LParen {
                operand(b, p, eb, d)
            } else if in_range(b, p) && b[p] is Number {
                crate::semantics::done(b[p]->Number_0, p + 1, eb)
            } else {
                crate::semantics::fail(EvalError::ExpectedValue, if in_range(b, p) { p + 1 } else { p }, eb)
            };
            if let Ok(v) = val.value {
                lemma_var_tables(val.env.vars, valb.env.vars, name, b[pos]->Symbol_0, v);
                let e2a = EnvModel { vars: bind(val.env.vars, name, v), ..val.env };
                let e2b = EnvModel { vars: bind(valb.env.vars, b[pos]->Symbol_0, v), ..valb.env };
                if pos < val.pos <= a.len() {
                    lemma_assignments(a, b, val.pos, e2a, e2b, d);
                }
            }
        }
    }
}

proof fn lemma_arguments(
    a: Seq<Token>,
    b: Seq<Token>,
    pos: int,
    ea: EnvModel,
    eb: EnvModel,
    d: nat,
    pa: Seq<String>,
    pb: Seq<String>,
    i: int,
    ba: Seq<(String, i32)>,
    bb: Seq<(String, i32)>,
)
    requires
        same_tokens(a, b),
        same_env(ea, eb),
        same_names(pa, pb),
        same_vars(ba, bb),
    ensures
        same_bound(arguments(a, pos, ea, d, pa, i, ba), arguments(b, pos, eb, d, pb, i, bb)),
    decreases d, 1int, a.len() - pos,
{
    if in_range(a, pos) {
        assert(same_token(a[pos], b[pos]));
        if !(a[pos] is RParen) && 0 <= i < pa.len() {
            lemma_operand(a, b, pos, ea, eb, d);
            let o = operand(a, pos, ea, d);
            let ob = operand(b, pos, eb, d);
            if let Ok(v) = o.value {
                assert(pa[i]@ == pb[i]@);
                lemma_var_tables(ba, bb, pa[i], pb[i], v);
                if pos < o.pos <= a.len() {
                    lemma_arguments(a, b, o.pos, o.env, ob.env, d, pa, pb, i + 1, bind(ba, pa[i], v), bind(bb, pb[i], v));
                }
            }
        }
    }
}

proof fn lemma_call(a: Seq<Token>, b: Seq<Token>, pos: int, ea: EnvModel, eb: EnvModel, d: nat, fa: FunModel, fb: FunModel)
    requires
        same_tokens(a, b),
        same_env(ea, eb),
        same_fun(fa, fb),
    ensures
        same_outcome(call(a, pos, ea, d, fa), call(b, pos, eb, d, fb)),
    decreases d, 2int, 0int,
{
    lemma_arguments(a, b, pos, ea, eb, d, fa.params, fb.params, 0, Seq::empty(), Seq::empty());
    let x = arguments(a, pos, ea, d, fa.params, 0, Seq::empty());
    let y = arguments(b, pos, eb, d, fb.params, 0, Seq::empty());
    if x.value is Ok && d > 0 {
        lemma_form(
            fa.body,
            fb.body,
            0,
            EnvModel { vars: x.value->Ok_0, funs: x.env.funs },
            EnvModel { vars: y.value->Ok_0, funs: y.env.funs },
            (d - 1) as nat,
        );
    }
}

proof fn lemma_form(a: Seq<Token>, b: Seq<Token>, pos: int, ea: EnvModel, eb: EnvModel, d: nat)
    requires
        same_tokens(a, b),
        same_env(ea, eb),
    ensures
        same_outcome(form(a, pos, ea, d), form(b, pos, eb, d)),
    decreases d, 3int, a.len() - pos,
{
    if in_range(a, pos) {
        assert(same_token(a[pos], b[pos]));
    }
    let p = if in_range(a, pos) { pos + 1 } else { pos };
    if !(in_range(a, pos) && !(a[pos] is LParen)) && in_range(a, p) {
        assert(same_token(a[p], b[p]));
        let head = a[p];
        lemma_operand(a, b, p + 1, ea, eb, d);
        let first = operand(a, p + 1, ea, d);
        let firstb = operand(b, p + 1, eb, d);
        if crate::semantics::is_arith(head) {
            if let Ok(v) = first.value {
                lemma_fold(a, b, first.pos, first.env, firstb.env, d, head, v);
            }
        } else if crate::semantics::is_comparison(head) {
            if let Ok(v) = first.value {
                lemma_chain(a, b, first.pos, first.env, firstb.env, d, head, v);
            }
        } else {
            match head {
                Token::If => lemma_cond(a, b, p + 1, ea, eb, d),
                Token::Symbol(s) => {
                    let sb = b[p]->Symbol_0;
                    if s@ == "setq"@ || s@ == "defun"@ {
                        if s@ == "setq"@ {
                            lemma_assignments(a, b, p + 1, ea, eb, d);
                        } else {
                            lemma_definition(a, b, p + 1, ea, eb);
                        }
                        let x = if s@ == "setq"@ {
                            assignments(a, p + 1, ea, d)
                        } else {
                            definition(a, p + 1, ea)
                        };
                        let y = if sb@ == "setq"@ {
                            assignments(b, p + 1, eb, d)
                        } else {
                            definition(b, p + 1, eb)
                        };
                        if x.value is Ok && in_range(a, x.pos) && pos < x.pos {
                            lemma_form(a, b, x.pos, x.env, y.env, d);
                        }
                    } else {
                        lemma_var_tables(ea.vars, eb.vars, s, sb, 0);
                        lemma_fun_tables(ea.funs, eb.funs, s, sb, FunModel { params: Seq::empty(), body: Seq::empty() }, FunModel { params: Seq::empty(), body: Seq::empty() });
                        if lookup(ea.vars, s@) is None && lookup(ea.funs, s@) is Some {
                            lemma_call(a, b, p + 1, ea, eb, d, lookup(ea.funs, s@)->Some_0, lookup(eb.funs, s@)->Some_0);
                        }
                    }
                },
                _ => {},
            }
        }
    }
}

/// Evaluating the same text twice, each time on tokens that `tokenize`
/// may give for it and against a fresh environment, ends the same way:
/// the same value or an error with the same message, the same position,
/// and environments with the same bindings.
/// Evaluation reads no state besides the tokens and the environment.
pub proof fn lemma_evaluation_repeatable(text: Seq<char>, first: Seq<Token>, second: Seq<Token>)
    requires
        tokenization(first, text),
        tokenization(second, text),
    ensures
        same_result(program(first, 0, empty_env()).value, program(second, 0, empty_env()).value),
        program(first, 0, empty_env()).value matches Err(e) ==> message_of(e) == message_of(
            program(second, 0, empty_env()).value->Err_0,
        ),
        program(first, 0, empty_env()).pos == program(second, 0, empty_env()).pos,
        same_env(program(first, 0, empty_env()).env, program(second, 0, empty_env()).env),
{
    assert forall|i: int| 0 <= i < first.len() implies same_token(#[trigger] first[i], second[i]) by {
        assert(denotes(first[i], words(text)[i]));
        assert(denotes(second[i], words(text)[i]));
    }
    lemma_form(first, second, 0, empty_env(), empty_env(), MAX_DEPTH as nat);
    if let Err(e) = program(first, 0, empty_env()).value {
        lemma_same_error_message(e, program(second, 0, empty_env()).value->Err_0);
    }
}

} // verus!
