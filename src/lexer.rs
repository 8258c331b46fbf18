use vstd::prelude::*;
use crate::token::Token;
use crate::parser::Parser;

verus! {

/// Characters with the Unicode `White_Space` property.
pub open spec fn white_space(c: char) -> bool {
    let u = c as u32;
    (0x09 <= u <= 0x0D) || u == 0x20 || u == 0x85 || u == 0xA0 || u == 0x1680 || (0x2000 <= u
        <= 0x200A) || u == 0x2028 || u == 0x2029 || u == 0x202F || u == 0x205F || u == 0x3000
}

pub open spec fn is_digit(c: char) -> bool {
    '0' as u32 <= c as u32 <= '9' as u32
}

/// The value of a string of decimal digits.
pub open spec fn digits_value(ds: Seq<char>) -> int
    decreases ds.len(),
{
    if ds.len() == 0 {
        0
    } else {
        10 * digits_value(ds.drop_last()) + (ds.last() as u32 - '0' as u32)
    }
}

pub open spec fn all_digits(ds: Seq<char>) -> bool {
    ds.len() > 0 && forall|i: int| 0 <= i < ds.len() ==> is_digit(#[trigger] ds[i])
}

/// The integer written as an optional sign followed by decimal digits.
pub open spec fn integer_value(w: Seq<char>) -> Option<int> {
    if w.len() > 0 && w[0] == '-' && all_digits(w.drop_first()) {
        Some(-digits_value(w.drop_first()))
    } else if w.len() > 0 && w[0] == '+' && all_digits(w.drop_first()) {
        Some(digits_value(w.drop_first()))
    } else if all_digits(w) {
        Some(digits_value(w))
    } else {
        None
    }
}

/// The 32-bit integer that `w` writes, if it writes one in range.
pub open spec fn i32_literal(w: Seq<char>) -> Option<i32> {
    match integer_value(w) {
        Some(v) => if i32::MIN <= v <= i32::MAX {
            Some(v as i32)
        } else {
            None
        },
        None => None,
    }
}

/// The token of a reserved word: parentheses, operators, `if`, and the
/// literals `t` (1) and `nil` (0).
pub open spec fn reserved(w: Seq<char>) -> Option<Token> {
    if w == seq!['('] {
        Some(Token::LParen)
    } else if w == seq![')'] {
        Some(Token::RParen)
    } else if w == seq!['+'] {
        Some(Token::Plus)
    } else if w == seq!['-'] {
        Some(Token::Minus)
    } else if w == seq!['*'] {
        Some(Token::Asterisk)
    } else if w == seq!['/'] {
        Some(Token::Slash)
    } else if w == seq!['='] {
        Some(Token::Eq)
    } else if w == seq!['/', '='] {
        Some(Token::Ne)
    } else if w == seq!['<'] {
        Some(Token::Lt)
    } else if w == seq!['<', '='] {
        Some(Token::Le)
    } else if w == seq!['>'] {
        Some(Token::Gt)
    } else if w == seq!['>', '='] {
        Some(Token::Ge)
    } else if w == seq!['t'] {
        Some(Token::Number(1))
    } else if w == seq!['n', 'i', 'l'] {
        Some(Token::Number(0))
    } else if w == seq!['i', 'f'] {
        Some(Token::If)
    } else {
        None
    }
}

/// Whether `t` is the token of the word `w`: a reserved word, else a number,
/// else a symbol with the word's text.
pub open spec fn denotes(t: Token, w: Seq<char>) -> bool {
    match reserved(w) {
        Some(r) => t == r,
        None => match i32_literal(w) {
            Some(n) => t == Token::Number(n),
            None => t is Symbol && t->Symbol_0@ == w,
        },
    }
}

pub open spec fn flush(cur: Seq<char>) -> Seq<Seq<char>> {
    if cur.len() == 0 {
        Seq::empty()
    } else {
        seq![cur]
    }
}

/// The words of `s` from index `i` on, after the partial word `cur`:
/// each parenthesis is a word of its own, and whitespace separates words.
pub open spec fn words_from(s: Seq<char>, i: int, cur: Seq<char>) -> Seq<Seq<char>>
    decreases s.len() - i,
{
    if i < 0 || i >= s.len() {
        flush(cur)
    } else if s[i] == '(' || s[i] == ')' {
        flush(cur) + seq![seq![s[i]]] + words_from(s, i + 1, Seq::empty())
    } else if white_space(s[i]) {
        flush(cur) + words_from(s, i + 1, Seq::empty())
    } else {
        words_from(s, i + 1, cur.push(s[i]))
    }
}

/// The words of a program text.
pub open spec fn words(s: Seq<char>) -> Seq<Seq<char>> {
    words_from(s, 0, Seq::empty())
}

/// A token sequence that `tokenize` returns for `text`.
pub open spec fn tokenization(ts: Seq<Token>, text: Seq<char>) -> bool {
    ts.len() == words(text).len() && forall|i: int|
        0 <= i < ts.len() ==> denotes(#[trigger] ts[i], words(text)[i])
}

/// Whether `c` is whitespace, as `char::is_whitespace` decides it.
fn is_white(c: char) -> (r: bool)
    ensures
        r == white_space(c),
{
    let u = c as u32;
    (0x09 <= u && u <= 0x0D) || u == 0x20 || u == 0x85 || u == 0xA0 || u == 0x1680 || (0x2000 <= u
        && u <= 0x200A) || u == 0x2028 || u == 0x2029 || u == 0x202F || u == 0x205F || u == 0x3000
}

/// Relies on `str::chars`: the characters of the text, in order.
#[verifier::external_body]
fn chars_of(s: &str) -> (r: Vec<char>)
    ensures
        r@ == s@,
{
    s.chars().collect()
}

/// Relies on `String`'s `FromIterator<&char>`: the characters, in order.
#[verifier::external_body]
fn string_of(cs: &Vec<char>) -> (r: String)
    ensures
        r@ == cs@,
{
    cs.iter().collect()
}

/// Relies on `str::parse::<i32>`: an optional `+` or `-` and ASCII decimal
/// digits, with a value in range; anything else is an error.
#[verifier::external_body]
fn parse_i32(s: &str) -> (r: Option<i32>)
    ensures
        r == i32_literal(s@),
{
    s.parse::<i32>().ok()
}

/// The token of one word.
fn word_token(w: &Vec<char>) -> (t: Token)
    requires
        w@.len() > 0,
    ensures
        denotes(t, w@),
{
    let n = w.len();
    if n == 1 {
        let c = w[0];
        proof {
            assert(w@ =~= seq![c]);
        }
        if c == '(' {
            return Token::LParen;
        } else if c == ')' {
            return Token::RParen;
        } else if c == '+' {
            return Token::Plus;
        } else if c == '-' {
            return Token::Minus;
        } else if c == '*' {
            return Token::Asterisk;
        } else if c == '/' {
            return Token::Slash;
        } else if c == '=' {
            return Token::Eq;
        } else if c == '<' {
            return Token::Lt;
        } else if c == '>' {
            return Token::Gt;
        } else if c == 't' {
            return Token::Number(1);
        }
    } else if n == 2 {
        let a = w[0];
        let b = w[1];
        proof {
            assert(w@ =~= seq![a, b]);
        }
        if a == '/' && b == '=' {
            return Token::Ne;
        } else if a == '<' && b == '=' {
            return Token::Le;
        } else if a == '>' && b == '=' {
            return Token::Ge;
        } else if a == 'i' && b == 'f' {
            return Token::If;
        }
    } else if n == 3 {
        let a = w[0];
        let b = w[1];
        let c = w[2];
        proof {
            assert(w@ =~= seq![a, b, c]);
        }
        if a == 'n' && b == 'i' && c == 'l' {
            return Token::Number(0);
        }
    }
    assert(reserved(w@) is None);
    let s = string_of(w);
    match parse_i32(s.as_str()) {
        Some(v) => Token::Number(v),
        None => Token::Symbol(s),
    }
}

/// Splits a program text into tokens: `(` and `)` stand alone, whitespace
/// separates the other words, and each word becomes the token it denotes.
pub fn tokenize(program: &str) -> (r: Parser)
    ensures
        r.pos == 0,
        tokenization(r.tokens@, program@),
{
    let cs = chars_of(program);
    let mut toks: Vec<Token> = Vec::new();
    let mut cur: Vec<char> = Vec::new();
    let ghost mut done: Seq<Seq<char>> = Seq::empty();
    let mut i: usize = 0;
    while i < cs.len()
        invariant
            i <= cs.len(),
            cs@ == program@,
            done + words_from(cs@, i as int, cur@) == words(cs@),
            toks@.len() == done.len(),
            forall|j: int| 0 <= j < toks@.len() ==> denotes(#[trigger] toks@[j], done[j]),
        decreases cs.len() - i,
    {
        let c = cs[i];
        let ghost before = done;
        let ghost cur0 = cur@;
        let ghost ii = i as int;
        let ghost rest = words_from(cs@, ii + 1, Seq::empty());
        if c == '(' || c == ')' || is_white(c) {
            if cur.len() > 0 {
                toks.push(word_token(&cur));
                proof {
                    done = done.push(cur@);
                }
                cur = Vec::new();
            }
            assert(before + flush(cur0) =~= done);
            assert(cur@ =~= Seq::<char>::empty());
            if c == '(' || c == ')' {
                let t = if c == '(' {
                    Token::LParen
                } else {
                    Token::RParen
                };
                toks.push(t);
                proof {
                    if c == '(' {
                        assert(seq![c] =~= seq!['(']);
                    } else {
                        assert(seq![c][0] != seq!['('][0]);
                        assert(seq![c] =~= seq![')']);
                    }
                    done = done.push(seq![c]);
                    assert(words_from(cs@, ii, cur0) == flush(cur0) + seq![seq![c]] + rest);
                    assert(before + (flush(cur0) + seq![seq![c]] + rest) =~= done + rest);
                }
            } else {
                assert(words_from(cs@, ii, cur0) == flush(cur0) + rest);
                assert(before + (flush(cur0) + rest) =~= done + rest);
            }
        } else {
            cur.push(c);
            assert(words_from(cs@, ii, cur0) == words_from(cs@, ii + 1, cur@));
        }
        i += 1;
    }
    if cur.len() > 0 {
        toks.push(word_token(&cur));
        proof {
            done = done.push(cur@);
        }
    }
    proof {
        assert(done =~= words(cs@));
    }
    Parser::new(toks)
}

} // verus!
