use vstd::prelude::*;
use vstd::string::*;

verus! {

/// One lexical unit of a program.
#[derive(Clone, Debug, PartialEq, Eq)]
pub enum Token {
    Number(i32),
    Symbol(String),
    LParen,
    RParen,
    Plus,
    Minus,
    Asterisk,
    Slash,
    Ne,
    Eq,
    Lt,
    Le,
    Gt,
    Ge,
    If,
}

impl Token {
    /// How this token is written in messages.
    pub fn text(&self) -> (r: String)
        ensures
            r@ == token_text(*self),
    {
        match self {
            Token::Number(n) => {
                let d = decimal(*n);
                write_variant("Number", d.as_str())
            },
            Token::Symbol(s) => {
                let q = quoted(s);
                write_variant("Symbol", q.as_str())
            },
            Token::LParen => String::from_str("LParen"),
            Token::RParen => String::from_str("RParen"),
            Token::Plus => String::from_str("Plus"),
            Token::Minus => String::from_str("Minus"),
            Token::Asterisk => String::from_str("Asterisk"),
            Token::Slash => String::from_str("Slash"),
            Token::Ne => String::from_str("Ne"),
            Token::Eq => String::from_str("Eq"),
            Token::Lt => String::from_str("Lt"),
            Token::Le => String::from_str("Le"),
            Token::Gt => String::from_str("Gt"),
            Token::Ge => String::from_str("Ge"),
            Token::If => String::from_str("If"),
        }
    }

    /// A copy of this token; symbols keep their exact text.
    pub fn copy(&self) -> (r: Token)
        ensures
            r == *self,
    {
        match self {
            Token::Number(n) => Token::Number(*n),
            Token::Symbol(s) => Token::Symbol(s.clone()),
            Token::LParen => Token::LParen,
            Token::RParen => Token::RParen,
            Token::Plus => Token::Plus,
            Token::Minus => Token::Minus,
            Token::Asterisk => Token::Asterisk,
            Token::Slash => Token::Slash,
            Token::Ne => Token::Ne,
            Token::Eq => Token::Eq,
            Token::Lt => Token::Lt,
            Token::Le => Token::Le,
            Token::Gt => Token::Gt,
            Token::Ge => Token::Ge,
            Token::If => Token::If,
        }
    }
}

/// The decimal digits of `n`.
pub open spec fn digits_text(n: nat) -> Seq<char>
    decreases n,
{
    let digit = seq!['0', '1', '2', '3', '4', '5', '6', '7', '8', '9'][(n % 10) as int];
    if n < 10 {
        seq![digit]
    } else {
        digits_text(n / 10).push(digit)
    }
}

/// An integer written in decimal, with `-` when negative.
pub open spec fn decimal_text(n: int) -> Seq<char> {
    if n < 0 {
        seq!['-'] + digits_text((-n) as nat)
    } else {
        digits_text(n as nat)
    }
}

/// The text of a string written as a quoted, escaped literal.
pub uninterp spec fn quoted_text(s: Seq<char>) -> Seq<char>;

/// A variant name with its one field in parentheses.
pub open spec fn variant_text(name: Seq<char>, field: Seq<char>) -> Seq<char> {
    name + "("@ + field + ")"@
}

/// How a token is written in messages: its variant name, with its field.
pub open spec fn token_text(t: Token) -> Seq<char> {
    match t {
        Token::Number(n) => variant_text("Number"@, decimal_text(n as int)),
        Token::Symbol(s) => variant_text("Symbol"@, quoted_text(s@)),
        Token::LParen => "LParen"@,
        Token::RParen => "RParen"@,
        Token::Plus => "Plus"@,
        Token::Minus => "Minus"@,
        Token::Asterisk => "Asterisk"@,
        Token::Slash => "Slash"@,
        Token::Ne => "Ne"@,
        Token::Eq => "Eq"@,
        Token::Lt => "Lt"@,
        Token::Le => "Le"@,
        Token::Gt => "Gt"@,
        Token::Ge => "Ge"@,
        Token::If => "If"@,
    }
}

/// Relies on `i32`'s `Display` (through `to_string`): decimal digits, with
/// `-` when negative.
#[verifier::external_body]
fn decimal(n: i32) -> (r: String)
    ensures
        r@ == decimal_text(n as int),
{
    n.to_string()
}

/// Relies on `str`'s `Debug` (through `format!`): the text in double quotes
/// with special characters escaped; it depends on the characters alone.
#[verifier::external_body]
fn quoted(s: &String) -> (r: String)
    ensures
        r@ == quoted_text(s@),
{
    format!("{:?}", s)
}

/// A variant name with its one field in parentheses.
pub fn write_variant(name: &str, field: &str) -> (r: String)
    ensures
        r@ == variant_text(name@, field@),
{
    let mut r = String::from_str(name);
    r.append("(");
    r.append(field);
    r.append(")");
    r
}

/// A copy of a token sequence.
pub fn copy_tokens(v: &Vec<Token>) -> (r: Vec<Token>)
    ensures
        r@ == v@,
{
    let mut r: Vec<Token> = Vec::new();
    let mut i: usize = 0;
    while i < v.len()
        invariant
            i <= v.len(),
            r@ == v@.subrange(0, i as int),
        decreases v.len() - i,
    {
        r.push(v[i].copy());
        i += 1;
    }
    assert(r@ =~= v@);
    r
}

} // verus!
