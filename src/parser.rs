use vstd::prelude::*;
use crate::token::Token;

verus! {

/// A read position over a fixed token sequence.
#[derive(Debug, PartialEq)]
pub struct Parser {
    pub tokens: Vec<Token>,
    pub pos: usize,
}

impl Parser {
    /// A cursor at the start of `tokens`.
    pub fn new(tokens: Vec<Token>) -> (r: Self)
        ensures
            r.tokens@ == tokens@,
            r.pos == 0,
    {
        Self { tokens, pos: 0 }
    }

    /// Whether every token has been read.
    pub fn eof(&self) -> (r: bool)
        ensures
            r == (self.pos >= self.tokens@.len()),
    {
        self.pos >= self.tokens.len()
    }

    /// Skips the current token, if there is one.
    pub fn consume(&mut self)
        ensures
            final(self).tokens@ == old(self).tokens@,
            final(self).pos == (if old(self).pos < old(self).tokens@.len() {
                old(self).pos + 1
            } else {
                old(self).pos as int
            }),
    {
        if self.pos < self.tokens.len() {
            self.pos += 1;
        }
    }

    /// Reads the current token and moves past it.
    pub fn next(&mut self) -> (r: Option<Token>)
        ensures
            final(self).tokens@ == old(self).tokens@,
            old(self).pos < old(self).tokens@.len() ==> r == Some(old(self).tokens@[old(self).pos as int])
                && final(self).pos == old(self).pos + 1,
            old(self).pos >= old(self).tokens@.len() ==> r is None && final(self).pos == old(self).pos,
    {
        if self.pos < self.tokens.len() {
            let t = self.tokens[self.pos].copy();
            self.pos += 1;
            Some(t)
        } else {
            None
        }
    }

    /// The current token, without moving.
    pub fn peek(&self) -> (r: Option<Token>)
        ensures
            self.pos < self.tokens@.len() ==> r == Some(self.tokens@[self.pos as int]),
            self.pos >= self.tokens@.len() ==> r is None,
    {
        if self.pos < self.tokens.len() {
            Some(self.tokens[self.pos].copy())
        } else {
            None
        }
    }
}

} // verus!
