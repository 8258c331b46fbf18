use minilisp::eval::eval;
use minilisp::env::Env;
use minilisp::lexer::tokenize;
use minilisp::parser::Parser;
use minilisp::token::Token;

fn run(src: &str, env: &mut Env) -> Result<i32, String> {
    eval(&mut tokenize(src), env)
}

#[test]
fn test_tokenize() {
    assert_eq!(tokenize("(+ 1 2 (- 4 2))"), Parser { tokens: vec![
        Token::LParen,
        Token::Plus,
        Token::Number(1),
        Token::Number(2),
        Token::LParen,
        Token::Minus,
        Token::Number(4),
        Token::Number(2),
        Token::RParen,
        Token::RParen,
    ], pos: 0});
    assert_eq!(tokenize("(setq x 10)"), Parser { tokens: vec![
        Token::LParen,
        Token::Symbol("setq".to_string()),
        Token::Symbol("x".to_string()),
        Token::Number(10),
        Token::RParen,
    ], pos: 0});
}

#[test]
fn test_eval() {
    let mut env = Env::new();

    assert_eq!(eval(&mut tokenize("(+ 1 2)"), &mut env),   Ok(3));
    assert_eq!(eval(&mut tokenize("(+ 1 2 3)"), &mut env), Ok(6));
    assert_eq!(eval(&mut tokenize("(- 3 2 1)"), &mut env), Ok(0));
    assert_eq!(eval(&mut tokenize("(- 1 2 3)"), &mut env), Ok(-4));
    assert_eq!(eval(&mut tokenize("(* 1 2 3)"), &mut env), Ok(6));
    assert_eq!(eval(&mut tokenize("(/ 8 4 2)"), &mut env), Ok(1));
    assert_eq!(eval(&mut tokenize("(/ 8 4 0)"), &mut env), Err("failed calculation".to_string()));

    assert_eq!(eval(&mut tokenize("(+ (* 5 3) 5)"), &mut env), Ok(20));
    assert_eq!(eval(&mut tokenize("(+ (* 5 (- 4 2) 3) 5)"), &mut env), Ok(35));
    assert_eq!(eval(&mut tokenize("(+ (* 5 3 (- 4 2)) 5)"), &mut env), Ok(35));

    assert_eq!(eval(&mut tokenize("(setq x 10) (x)"), &mut env), Ok(10));
    assert_eq!(eval(&mut tokenize("(setq x 42) (* x 2)"), &mut env), Ok(84));
    assert_eq!(eval(&mut tokenize("(setq x 3) (setq y 6) (+ x y)"), &mut env), Ok(9));
    assert_eq!(eval(&mut tokenize("(setq x 3 y 6) (+ x y)"), &mut env), Ok(9));
    assert_eq!(eval(&mut tokenize("(setq x 42 x 21) (x)"), &mut env), Ok(21));
    assert_eq!(eval(&mut tokenize("(setq x 10) (setq y (+ x 100)) (y)"), &mut env), Ok(110));

    assert_eq!(eval(&mut tokenize("(defun add (a b) (+ a b)) (add 1 2)"), &mut env), Ok(3));
    assert_eq!(eval(&mut tokenize("(defun add (a b) (+ a b)) (add (add 1 2) 3)"), &mut env), Ok(6));
    assert_eq!(eval(&mut tokenize("(defun add (a b) (+ a b)) (add 1 (add 2 3))"), &mut env), Ok(6));
    assert_eq!(eval(&mut tokenize("(defun foo (a b c) (+ a (* c 2) b)) (foo 1 2 3)"), &mut env), Ok(9));

    assert_eq!(eval(&mut tokenize("(= 1 2)"),  &mut env), Ok(0));
    assert_eq!(eval(&mut tokenize("(= 2 2)"),  &mut env), Ok(1));
    assert_eq!(eval(&mut tokenize("(/= 1 2)"), &mut env), Ok(1));
    assert_eq!(eval(&mut tokenize("(/= 2 2)"), &mut env), Ok(0));
    assert_eq!(eval(&mut tokenize("(< 1 2)"),  &mut env), Ok(1));
    assert_eq!(eval(&mut tokenize("(< 2 2)"),  &mut env), Ok(0));
    assert_eq!(eval(&mut tokenize("(> 2 2)"),  &mut env), Ok(0));
    assert_eq!(eval(&mut tokenize("(> 2 1)"),  &mut env), Ok(1));
    assert_eq!(eval(&mut tokenize("(<= 1 1)"), &mut env), Ok(1));
    assert_eq!(eval(&mut tokenize("(<= 2 1)"), &mut env), Ok(0));
    assert_eq!(eval(&mut tokenize("(>= 2 2)"), &mut env), Ok(1));
    assert_eq!(eval(&mut tokenize("(>= 1 2)"), &mut env), Ok(0));

    assert_eq!(eval(&mut tokenize("(if t 10 100)"),   &mut env), Ok(10));
    assert_eq!(eval(&mut tokenize("(if 1 10 100)"),   &mut env), Ok(10));
    assert_eq!(eval(&mut tokenize("(if nil 10 100)"), &mut env), Ok(100));
    assert_eq!(eval(&mut tokenize("(if (+ 1 2) (+ 1 10) (+ 1 100))"),   &mut env), Ok(11));
    assert_eq!(eval(&mut tokenize("(defun fib (x) (if (<= x 1) 1 (+ (fib (- x 1)) (fib (- x 2))))) (fib 9)"), &mut env), Ok(55));
}

#[test]
fn tokenize_literals_and_whitespace() {
    let p = tokenize("\t(if  t\nnil)  -5 +7 foo-bar 2147483648 /= <= >= = < > * /");
    assert_eq!(p.pos, 0);
    assert_eq!(p.tokens, vec![
        Token::LParen,
        Token::If,
        Token::Number(1),
        Token::Number(0),
        Token::RParen,
        Token::Number(-5),
        Token::Number(7),
        Token::Symbol("foo-bar".to_string()),
        Token::Symbol("2147483648".to_string()),
        Token::Ne,
        Token::Le,
        Token::Ge,
        Token::Eq,
        Token::Lt,
        Token::Gt,
        Token::Asterisk,
        Token::Slash,
    ]);
}

#[test]
fn tokenize_splits_parentheses_inside_words() {
    let p = tokenize("(abc)(12)");
    assert_eq!(p.tokens, vec![
        Token::LParen,
        Token::Symbol("abc".to_string()),
        Token::RParen,
        Token::LParen,
        Token::Number(12),
        Token::RParen,
    ]);
}

#[test]
fn tokenize_empty_and_blank() {
    assert_eq!(tokenize("").tokens, Vec::<Token>::new());
    assert_eq!(tokenize("  \u{3000} \n").tokens, Vec::<Token>::new());
}

#[test]
fn failed_calculation_leaves_environment_alone() {
    let mut env = Env::new();
    assert_eq!(run("(setq x 5)", &mut env), Ok(0));
    assert_eq!(run("(/ 8 4 0)", &mut env), Err("failed calculation".to_string()));
    assert_eq!(run("(x)", &mut env), Ok(5));
    assert_eq!(env.get_var(&"x".to_string()), Some(5));
    assert_eq!(env.get_var(&"y".to_string()), None);
}

#[test]
fn overflow_is_failed_calculation() {
    let mut env = Env::new();
    assert_eq!(run("(+ 2147483647 1)", &mut env), Err("failed calculation".to_string()));
    assert_eq!(run("(- -2147483648 1)", &mut env), Err("failed calculation".to_string()));
    assert_eq!(run("(* 65536 65536)", &mut env), Err("failed calculation".to_string()));
    assert_eq!(run("(/ -2147483648 -1)", &mut env), Err("failed calculation".to_string()));
    assert_eq!(run("(/ -7 2)", &mut env), Ok(-3));
}

#[test]
fn comparisons_chain_results() {
    let mut env = Env::new();
    // each step compares the previous 0/1 result with the next operand
    assert_eq!(run("(< 1 2 1)", &mut env), Ok(0));
    assert_eq!(run("(< 3 2 1)", &mut env), Ok(1));
    assert_eq!(run("(= 3 3 1)", &mut env), Ok(1));
    assert_eq!(run("(> 5 3 2)", &mut env), Ok(0));
}

#[test]
fn conditional_evaluates_one_branch() {
    let mut env = Env::new();
    assert_eq!(run("(if 0 (setq a 1) (+ 2 3))", &mut env), Ok(5));
    assert_eq!(env.get_var(&"a".to_string()), None);
    assert_eq!(run("(if 1 7 (/ 1 0))", &mut env), Ok(7));
}

#[test]
fn calls_do_not_see_caller_variables() {
    let mut env = Env::new();
    assert_eq!(run("(setq z 4) (defun getz () (z)) (getz)", &mut env), Err("invalid ident: 'z'".to_string()));
    assert_eq!(run("(defun sq (n) (* n n)) (defun quad (n) (sq (sq n))) (quad 3)", &mut env), Ok(81));
}

#[test]
fn evaluation_is_repeatable() {
    let text = "(defun fib (x) (if (<= x 1) 1 (+ (fib (- x 1)) (fib (- x 2))))) (fib 9)";
    let mut first = Env::new();
    let mut second = Env::new();
    assert_eq!(run(text, &mut first), Ok(55));
    assert_eq!(run(text, &mut second), Ok(55));
}

#[test]
fn empty_and_bare_forms() {
    let mut env = Env::new();
    assert_eq!(run("", &mut env), Ok(0));
    assert_eq!(run("(", &mut env), Ok(0));
    assert_eq!(run("(42)", &mut env), Ok(42));
    let mut p = tokenize("(42)");
    assert_eq!(eval(&mut p, &mut env), Ok(42));
    assert_eq!(p.pos, 1);
}

#[test]
fn each_error_has_its_message() {
    let mut env = Env::new();
    assert_eq!(run("x", &mut env), Err("expect: '(', but got: 'Symbol(\"x\")'".to_string()));
    assert_eq!(run("5", &mut env), Err("expect: '(', but got: 'Number(5)'".to_string()));
    assert_eq!(run("-12", &mut env), Err("expect: '(', but got: 'Number(-12)'".to_string()));
    assert_eq!(run("a\"b", &mut env), Err("expect: '(', but got: 'Symbol(\"a\\\"b\")'".to_string()));
    assert_eq!(run(")", &mut env), Err("expect: '(', but got: 'RParen'".to_string()));
    assert_eq!(run("(defun f (a) (+ a 1) 5", &mut env), Err("expect: ')'".to_string()));
    assert_eq!(run("())", &mut env), Err("unexpected token: RParen".to_string()));
    assert_eq!(run("(+ 1 if)", &mut env), Err("unexpected token: If".to_string()));
    assert_eq!(run("(+", &mut env), Err("unexpected end of input".to_string()));
    assert_eq!(run("(foo)", &mut env), Err("invalid ident: 'foo'".to_string()));
    assert_eq!(run("(foo 1)", &mut env), Err("invalid ident: 'foo'".to_string()));
    assert_eq!(run("(+ 1 q)", &mut env), Err("invalid ident: 'q'".to_string()));
    assert_eq!(run("(+ (/ 1 0) 2)", &mut env), Err("failed calculation".to_string()));
    assert_eq!(run("(defun f 3 (a))", &mut env), Err("expect: '('".to_string()));
    assert_eq!(run("(defun f (a) 3)", &mut env), Err("expect: '('".to_string()));
    assert_eq!(run("(setq 1 2)", &mut env), Err("expect variable".to_string()));
    assert_eq!(run("(setq x y)", &mut env), Err("expect value".to_string()));
    assert_eq!(run("(defun 1 (a) (a))", &mut env), Err("expect function name".to_string()));
    assert_eq!(run("(defun g (1) (+ 1 1))", &mut env), Err("invalid parameter".to_string()));
    assert_eq!(run("(defun h (a) (a)) (h 1 2)", &mut env), Err("too many arguments".to_string()));
    assert_eq!(run("(defun loop (x) (loop x)) (loop 1)", &mut env), Err("nesting too deep".to_string()));
}

#[test]
fn cursor_operations() {
    let mut p = Parser::new(vec![Token::LParen, Token::Number(3)]);
    assert!(!p.eof());
    assert_eq!(p.peek(), Some(Token::LParen));
    assert_eq!(p.next(), Some(Token::LParen));
    p.consume();
    assert!(p.eof());
    assert_eq!(p.next(), None);
    p.consume();
    assert_eq!(p.pos, 2);
}

#[test]
fn deep_nesting_stops_with_an_error() {
    let mut env = Env::new();
    let mut text = String::new();
    for _ in 0..1100 {
        text.push_str("(+ 1 ");
    }
    text.push('1');
    for _ in 0..1100 {
        text.push(')');
    }
    assert_eq!(run(&text, &mut env), Err("nesting too deep".to_string()));
}

#[test]
fn recursion_within_the_depth_bound() {
    let mut env = Env::new();
    let text = "(defun sum (n) (if (<= n 0) 0 (+ n (sum (- n 1))))) (sum 60)";
    assert_eq!(run(text, &mut env), Ok(1830));
    assert_eq!(run("(sum 85)", &mut env), Ok(3655));
    assert_eq!(run("(sum 330)", &mut env), Ok(54615));
    assert_eq!(run("(defun fact (n) (if (= n 0) 1 (* n (fact (- n 1))))) (fact 12)", &mut env), Ok(479001600));
    assert_eq!(run("(fact 13)", &mut env), Err("failed calculation".to_string()));
}

#[test]
fn nesting_just_within_the_bound() {
    let mut env = Env::new();
    let mut text = String::new();
    for _ in 0..1000 {
        text.push_str("(+ 1 ");
    }
    text.push('1');
    for _ in 0..1000 {
        text.push(')');
    }
    assert_eq!(run(&text, &mut env), Ok(1001));
}

#[test]
fn token_text_is_written_like_debug() {
    let tokens = vec![
        Token::Number(-7),
        Token::Symbol("q\"x".to_string()),
        Token::LParen,
        Token::Ne,
        Token::If,
    ];
    for t in tokens {
        assert_eq!(t.text(), format!("{:?}", t));
    }
}

#[test]
fn unicode_whitespace_separates_words() {
    let p = tokenize("a\u{A0}b\u{2003}c\u{3000}(d)\u{200B}e");
    assert_eq!(p.tokens, vec![
        Token::Symbol("a".to_string()),
        Token::Symbol("b".to_string()),
        Token::Symbol("c".to_string()),
        Token::LParen,
        Token::Symbol("d".to_string()),
        Token::RParen,
        Token::Symbol("\u{200B}e".to_string()),
    ]);
    for c in ['\t', '\n', '\u{B}', '\u{C}', '\r', ' ', '\u{85}', '\u{1680}', '\u{2028}', '\u{2029}', '\u{202F}', '\u{205F}'] {
        assert!(c.is_whitespace());
        let text = format!("x{}y", c);
        assert_eq!(tokenize(&text).tokens.len(), 2);
    }
}

#[test]
fn conditional_inside_a_form_reads_its_closing_paren() {
    let mut env = Env::new();
    assert_eq!(run("(+ (if nil 1 2) 3)", &mut env), Ok(5));
    assert_eq!(run("(+ (if 1 1 2) 3)", &mut env), Ok(4));
    assert_eq!(run("(+ (if nil (/ 1 0) (+ 10 10)) 1)", &mut env), Ok(21));
    assert_eq!(run("(if nil (/ 1 0) 20)", &mut env), Ok(20));
    assert_eq!(run("(if 1 10 (/ 1 0))", &mut env), Ok(10));
    let mut p = tokenize("(if nil 10 100)");
    assert_eq!(eval(&mut p, &mut env), Ok(100));
    assert_eq!(p.pos, 6);
}
