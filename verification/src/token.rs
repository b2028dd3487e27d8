//! A token: a kind together with an advisory source position.
use vstd::prelude::*;

use crate::token_type::TokenType;
use crate::token_type::TokenTypeV;

verus! {

#[derive(Clone, Debug)]
pub struct Token {
    token_type: TokenType,
    line: usize,
    column: usize,
}

/// The mathematical shape of a token.
pub struct TokenV {
    pub token_type: TokenTypeV,
    pub line: usize,
    pub column: usize,
}

impl View for Token {
    type V = TokenV;

    closed spec fn view(&self) -> TokenV {
        TokenV { token_type: self.token_type@, line: self.line, column: self.column }
    }
}

impl Token {
    pub fn new(token_type: TokenType, line: usize, column: usize) -> (r: Token)
        ensures
            r@.token_type == token_type@,
            r@.line == line,
            r@.column == column,
    {
        Token { token_type, line, column }
    }

    /// The token's kind.
    pub fn get(&self) -> (r: &TokenType)
        ensures
            r@ == self@.token_type,
    {
        &self.token_type
    }
}

impl PartialEq for Token {
    fn eq(&self, other: &Token) -> (r: bool) {
        self.token_type == other.token_type && self.line == other.line && self.column
            == other.column
    }
}

impl vstd::std_specs::cmp::PartialEqSpecImpl for Token {
    open spec fn obeys_eq_spec() -> bool {
        true
    }

    open spec fn eq_spec(&self, other: &Token) -> bool {
        self@.token_type == other@.token_type && self@.line == other@.line && self@.column
            == other@.column
    }
}

} // verus!
