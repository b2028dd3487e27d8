//! The recursive-descent parser: token stream to statement trees, with
//! operator precedence, error recovery by synchronisation, and an ordered
//! list of collected errors.
//!
//! Every parsing function carries a fuel bound; the bound is generous and a
//! program only fails on it when its nesting exceeds any practical depth.
use vstd::prelude::*;

use crate::expr::Expr;
use crate::expr::ExprV;
use crate::stmt::Stmt;
use crate::stmt::StmtV;
use crate::token::Token;
use crate::token_type::Keyword;
use crate::token_type::Literal;
use crate::token_type::LiteralV;
use crate::token_type::Operator;
use crate::token_type::Punctuation;
use crate::token_type::TokenType;
use crate::token_type::TokenTypeV;
use crate::token_type::tt_clone;

verus! {

/// Fuel handed to the parser: parsing gives up with `TooDeeplyNested` only
/// past this many recursion steps.
pub const PARSE_FUEL: u64 = 1_000_000;

/// One parse error site; `message` renders its canonical text.
#[derive(Clone, Copy, Debug, PartialEq, Eq, Structural)]
pub enum ParseError {
    ExpectedSemiAfterValue,
    ExpectedSemiAfterPrint,
    ExpectedSemiAfterVarInit,
    ExpectedSemiAfterReturn,
    ExpectedParenCloseAfterExpr,
    ExpectedParenOpenAfterIf,
    ExpectedParenCloseAfterIfCond,
    ExpectedParenOpenBeforeWhile,
    ExpectedParenCloseAfterWhile,
    ExpectedParenOpenBeforeFor,
    ExpectedSemiAfterForCond,
    ExpectedParenCloseAfterFor,
    ExpectedBraceClose,
    ExpectedParenOpenAfterFnName,
    ExpectedParenCloseAfterFnArgs,
    ExpectedBlockStart,
    ExpectedVarName,
    ExpectedFnName,
    ExpectedParenCloseAfterArgs,
    InvalidAssignmentTarget,
    UnexpectedPrimary,
    TooDeeplyNested,
}

/// The canonical text of each parse error.
pub open spec fn spec_message(e: ParseError) -> Seq<char> {
    match e {
        ParseError::ExpectedSemiAfterValue => "Expected a `;` after the value"@,
        ParseError::ExpectedSemiAfterPrint => "Expected a `;` after the print value"@,
        ParseError::ExpectedSemiAfterVarInit => "Expected a `;` after the variable initialization"@,
        ParseError::ExpectedSemiAfterReturn => "Expected a `;` after the return value"@,
        ParseError::ExpectedParenCloseAfterExpr => "Expected a `)` after the expression"@,
        ParseError::ExpectedParenOpenAfterIf => "Expected a `(` after `if`"@,
        ParseError::ExpectedParenCloseAfterIfCond => "Expected a `)` after the `if` condition"@,
        ParseError::ExpectedParenOpenBeforeWhile => "Expected a `(` before the `while` condition"@,
        ParseError::ExpectedParenCloseAfterWhile => "Expected a `)` after the `while` condition"@,
        ParseError::ExpectedParenOpenBeforeFor => "Expected a `(` before the `for` condition"@,
        ParseError::ExpectedSemiAfterForCond => "Expected a `;` after the `for`'s condition expression"@,
        ParseError::ExpectedParenCloseAfterFor => "Expected a `)` after the `for` clause"@,
        ParseError::ExpectedBraceClose => "Expected here a `}` to close the block"@,
        ParseError::ExpectedParenOpenAfterFnName => "Expected a `(` after the function's name"@,
        ParseError::ExpectedParenCloseAfterFnArgs => "Expected a `)` after the function's argument list"@,
        ParseError::ExpectedBlockStart => "Expected here a block start - `{`"@,
        ParseError::ExpectedVarName => "Expected variable name here"@,
        ParseError::ExpectedFnName => "Expected here a function name"@,
        ParseError::ExpectedParenCloseAfterArgs => "Expected a `)` after the argument list"@,
        ParseError::InvalidAssignmentTarget => "Invalid assignment target"@,
        ParseError::UnexpectedPrimary => "Unknown primary expression received here"@,
        ParseError::TooDeeplyNested => "The program nests deeper than the parser accepts"@,
    }
}

impl ParseError {
    /// The canonical text of the error.
    pub fn message(&self) -> (r: &'static str)
        ensures
            r@ == spec_message(*self),
    {
        match self {
            ParseError::ExpectedSemiAfterValue => "Expected a `;` after the value",
            ParseError::ExpectedSemiAfterPrint => "Expected a `;` after the print value",
            ParseError::ExpectedSemiAfterVarInit => "Expected a `;` after the variable initialization",
            ParseError::ExpectedSemiAfterReturn => "Expected a `;` after the return value",
            ParseError::ExpectedParenCloseAfterExpr => "Expected a `)` after the expression",
            ParseError::ExpectedParenOpenAfterIf => "Expected a `(` after `if`",
            ParseError::ExpectedParenCloseAfterIfCond => "Expected a `)` after the `if` condition",
            ParseError::ExpectedParenOpenBeforeWhile => "Expected a `(` before the `while` condition",
            ParseError::ExpectedParenCloseAfterWhile => "Expected a `)` after the `while` condition",
            ParseError::ExpectedParenOpenBeforeFor => "Expected a `(` before the `for` condition",
            ParseError::ExpectedSemiAfterForCond => "Expected a `;` after the `for`'s condition expression",
            ParseError::ExpectedParenCloseAfterFor => "Expected a `)` after the `for` clause",
            ParseError::ExpectedBraceClose => "Expected here a `}` to close the block",
            ParseError::ExpectedParenOpenAfterFnName => "Expected a `(` after the function's name",
            ParseError::ExpectedParenCloseAfterFnArgs => "Expected a `)` after the function's argument list",
            ParseError::ExpectedBlockStart => "Expected here a block start - `{`",
            ParseError::ExpectedVarName => "Expected variable name here",
            ParseError::ExpectedFnName => "Expected here a function name",
            ParseError::ExpectedParenCloseAfterArgs => "Expected a `)` after the argument list",
            ParseError::InvalidAssignmentTarget => "Invalid assignment target",
            ParseError::UnexpectedPrimary => "Unknown primary expression received here",
            ParseError::TooDeeplyNested => "The program nests deeper than the parser accepts",
        }
    }
}

/// The token kind at position `i`; past the end it is the end-of-file
/// sentinel.
pub open spec fn cur(ts: Seq<TokenTypeV>, i: int) -> TokenTypeV {
    if 0 <= i < ts.len() {
        ts[i]
    } else {
        TokenTypeV::EndOfFile
    }
}

/// The position is at the end-of-file sentinel.
pub open spec fn at_end(ts: Seq<TokenTypeV>, i: int) -> bool {
    cur(ts, i) == TokenTypeV::EndOfFile
}

/// The position one token on, saturating at the end.
pub open spec fn adv(ts: Seq<TokenTypeV>, i: int) -> int {
    if 0 <= i < ts.len() {
        i + 1
    } else {
        i
    }
}

/// The current token equals `t` and is not the end sentinel.
pub open spec fn spec_check(ts: Seq<TokenTypeV>, i: int, t: TokenTypeV) -> bool {
    cur(ts, i) != TokenTypeV::EndOfFile && cur(ts, i) == t
}

/// Demand token `t` here: consume it, or stop with error `e`.
pub open spec fn spec_expect(ts: Seq<TokenTypeV>, i: int, t: TokenTypeV, e: ParseError) -> (
    Result<(), ParseError>,
    int,
) {
    if spec_check(ts, i, t) {
        (Ok(()), adv(ts, i))
    } else {
        (Err(e), i)
    }
}

/// primary := LITERAL | IDENT | "(" expression ")"
pub open spec fn spec_primary(ts: Seq<TokenTypeV>, i: int, fuel: nat) -> (
    Result<ExprV, ParseError>,
    int,
)
    decreases fuel,
{
    if fuel == 0 {
        (Err(ParseError::TooDeeplyNested), i)
    } else {
        match cur(ts, i) {
            TokenTypeV::Literal(l) => (Ok(ExprV::Literal(l)), adv(ts, i)),
            TokenTypeV::Identifier(name) => (Ok(ExprV::Variable(name)), adv(ts, i)),
            TokenTypeV::Punctuation(Punctuation::BracketOpen) => {
                let (r, j) = spec_expression(ts, adv(ts, i), (fuel - 1) as nat);
                match r {
                    Ok(e) => {
                        if spec_check(ts, j, TokenTypeV::Punctuation(Punctuation::BracketClose)) {
                            (Ok(ExprV::Grouping(Box::new(e))), adv(ts, j))
                        } else {
                            (Err(ParseError::ExpectedParenCloseAfterExpr), j)
                        }
                    },
                    Err(pe) => (Err(pe), j),
                }
            },
            _ => (Err(ParseError::UnexpectedPrimary), i),
        }
    }
}

/// arguments := expression ("," expression)*
pub open spec fn spec_call_args(ts: Seq<TokenTypeV>, i: int, acc: Seq<ExprV>, fuel: nat) -> (
    Result<Seq<ExprV>, ParseError>,
    int,
)
    decreases fuel,
{
    if fuel == 0 {
        (Err(ParseError::TooDeeplyNested), i)
    } else {
        let (r, j) = spec_expression(ts, i, (fuel - 1) as nat);
        match r {
            Ok(e) => {
                if spec_check(ts, j, TokenTypeV::Punctuation(Punctuation::Comma)) {
                    spec_call_args(ts, adv(ts, j), acc + seq![e], (fuel - 1) as nat)
                } else {
                    (Ok(acc + seq![e]), j)
                }
            },
            Err(pe) => (Err(pe), j),
        }
    }
}

/// The argument list and closing `)` of one call, the `(` already consumed.
pub open spec fn spec_finish_call(ts: Seq<TokenTypeV>, i: int, callee: ExprV, fuel: nat) -> (
    Result<ExprV, ParseError>,
    int,
)
    decreases fuel,
{
    if fuel == 0 {
        (Err(ParseError::TooDeeplyNested), i)
    } else {
        let (args_r, j) = if cur(ts, i) == TokenTypeV::Punctuation(Punctuation::BracketClose) {
            (Ok(Seq::<ExprV>::empty()), i)
        } else {
            spec_call_args(ts, i, Seq::empty(), (fuel - 1) as nat)
        };
        match args_r {
            Ok(args) => {
                let (er, k) = spec_expect(
                    ts,
                    j,
                    TokenTypeV::Punctuation(Punctuation::BracketClose),
                    ParseError::ExpectedParenCloseAfterArgs,
                );
                match er {
                    Ok(_) => (Ok(ExprV::Call(Box::new(callee), args)), k),
                    Err(pe) => (Err(pe), k),
                }
            },
            Err(pe) => (Err(pe), j),
        }
    }
}

/// The chain of calls following a primary expression.
pub open spec fn spec_call_rest(ts: Seq<TokenTypeV>, callee: ExprV, i: int, fuel: nat) -> (
    Result<ExprV, ParseError>,
    int,
)
    decreases fuel,
{
    if fuel == 0 {
        (Err(ParseError::TooDeeplyNested), i)
    } else if cur(ts, i) == TokenTypeV::Punctuation(Punctuation::BracketOpen) {
        let (r, j) = spec_finish_call(ts, adv(ts, i), callee, (fuel - 1) as nat);
        match r {
            Ok(e) => spec_call_rest(ts, e, j, (fuel - 1) as nat),
            Err(pe) => (Err(pe), j),
        }
    } else {
        (Ok(callee), i)
    }
}

/// call := primary ("(" arguments? ")")*
pub open spec fn spec_call_level(ts: Seq<TokenTypeV>, i: int, fuel: nat) -> (
    Result<ExprV, ParseError>,
    int,
)
    decreases fuel,
{
    if fuel == 0 {
        (Err(ParseError::TooDeeplyNested), i)
    } else {
        let (r, j) = spec_primary(ts, i, (fuel - 1) as nat);
        match r {
            Ok(e) => spec_call_rest(ts, e, j, (fuel - 1) as nat),
            Err(pe) => (Err(pe), j),
        }
    }
}

/// unary := ("!" | "-" | "+") unary | call
pub open spec fn spec_unary(ts: Seq<TokenTypeV>, i: int, fuel: nat) -> (
    Result<ExprV, ParseError>,
    int,
)
    decreases fuel,
{
    if fuel == 0 {
        (Err(ParseError::TooDeeplyNested), i)
    } else {
        match cur(ts, i) {
            TokenTypeV::Operator(op) => {
                if op == Operator::Not || op == Operator::Sub || op == Operator::Add {
                    let (r, j) = spec_unary(ts, adv(ts, i), (fuel - 1) as nat);
                    match r {
                        Ok(e) => (Ok(ExprV::Unary(op, Box::new(e))), j),
                        Err(pe) => (Err(pe), j),
                    }
                } else {
                    spec_call_level(ts, i, (fuel - 1) as nat)
                }
            },
            _ => spec_call_level(ts, i, (fuel - 1) as nat),
        }
    }
}

/// An operator of the factor level: `*` or `/`.
pub open spec fn is_factor_op(t: TokenTypeV) -> bool {
    t == TokenTypeV::Operator(Operator::Mul) || t == TokenTypeV::Operator(Operator::Div)
}

/// An operator of the term level: `+` or `-`.
pub open spec fn is_term_op(t: TokenTypeV) -> bool {
    t == TokenTypeV::Operator(Operator::Add) || t == TokenTypeV::Operator(Operator::Sub)
}

/// An operator of the comparison level.
pub open spec fn is_comparison_op(t: TokenTypeV) -> bool {
    ||| t == TokenTypeV::Operator(Operator::Gt)
    ||| t == TokenTypeV::Operator(Operator::Gte)
    ||| t == TokenTypeV::Operator(Operator::Lt)
    ||| t == TokenTypeV::Operator(Operator::Lte)
}

/// An operator of the equality level: `==` or `!=`.
pub open spec fn is_equality_op(t: TokenTypeV) -> bool {
    t == TokenTypeV::Operator(Operator::EqEq) || t == TokenTypeV::Operator(Operator::NotEq)
}

/// The left-associative continuation of the factor level.
pub open spec fn spec_factor_rest(ts: Seq<TokenTypeV>, acc: ExprV, i: int, fuel: nat) -> (
    Result<ExprV, ParseError>,
    int,
)
    decreases fuel,
{
    if fuel == 0 {
        (Err(ParseError::TooDeeplyNested), i)
    } else if is_factor_op(cur(ts, i)) {
        let op = cur(ts, i)->Operator_0;
        let (r, j) = spec_unary(ts, adv(ts, i), (fuel - 1) as nat);
        match r {
            Ok(e) => spec_factor_rest(
                ts,
                ExprV::Binary(Box::new(acc), op, Box::new(e)),
                j,
                (fuel - 1) as nat,
            ),
            Err(pe) => (Err(pe), j),
        }
    } else {
        (Ok(acc), i)
    }
}

/// factor := unary (("*" | "/") unary)*
pub open spec fn spec_factor(ts: Seq<TokenTypeV>, i: int, fuel: nat) -> (
    Result<ExprV, ParseError>,
    int,
)
    decreases fuel,
{
    if fuel == 0 {
        (Err(ParseError::TooDeeplyNested), i)
    } else {
        let (r, j) = spec_unary(ts, i, (fuel - 1) as nat);
        match r {
            Ok(e) => spec_factor_rest(ts, e, j, (fuel - 1) as nat),
            Err(pe) => (Err(pe), j),
        }
    }
}

/// The left-associative continuation of the term level.
pub open spec fn spec_term_rest(ts: Seq<TokenTypeV>, acc: ExprV, i: int, fuel: nat) -> (
    Result<ExprV, ParseError>,
    int,
)
    decreases fuel,
{
    if fuel == 0 {
        (Err(ParseError::TooDeeplyNested), i)
    } else if is_term_op(cur(ts, i)) {
        let op = cur(ts, i)->Operator_0;
        let (r, j) = spec_factor(ts, adv(ts, i), (fuel - 1) as nat);
        match r {
            Ok(e) => spec_term_rest(
                ts,
                ExprV::Binary(Box::new(acc), op, Box::new(e)),
                j,
                (fuel - 1) as nat,
            ),
            Err(pe) => (Err(pe), j),
        }
    } else {
        (Ok(acc), i)
    }
}

/// term := factor (("+" | "-") factor)*
pub open spec fn spec_term(ts: Seq<TokenTypeV>, i: int, fuel: nat) -> (
    Result<ExprV, ParseError>,
    int,
)
    decreases fuel,
{
    if fuel == 0 {
        (Err(ParseError::TooDeeplyNested), i)
    } else {
        let (r, j) = spec_factor(ts, i, (fuel - 1) as nat);
        match r {
            Ok(e) => spec_term_rest(ts, e, j, (fuel - 1) as nat),
            Err(pe) => (Err(pe), j),
        }
    }
}

/// The left-associative continuation of the comparison level.
pub open spec fn spec_comparison_rest(ts: Seq<TokenTypeV>, acc: ExprV, i: int, fuel: nat) -> (
    Result<ExprV, ParseError>,
    int,
)
    decreases fuel,
{
    if fuel == 0 {
        (Err(ParseError::TooDeeplyNested), i)
    } else if is_comparison_op(cur(ts, i)) {
        let op = cur(ts, i)->Operator_0;
        let (r, j) = spec_term(ts, adv(ts, i), (fuel - 1) as nat);
        match r {
            Ok(e) => spec_comparison_rest(
                ts,
                ExprV::Binary(Box::new(acc), op, Box::new(e)),
                j,
                (fuel - 1) as nat,
            ),
            Err(pe) => (Err(pe), j),
        }
    } else {
        (Ok(acc), i)
    }
}

/// comparison := term (("<" | "<=" | ">" | ">=") term)*
pub open spec fn spec_comparison(ts: Seq<TokenTypeV>, i: int, fuel: nat) -> (
    Result<ExprV, ParseError>,
    int,
)
    decreases fuel,
{
    if fuel == 0 {
        (Err(ParseError::TooDeeplyNested), i)
    } else {
        let (r, j) = spec_term(ts, i, (fuel - 1) as nat);
        match r {
            Ok(e) => spec_comparison_rest(ts, e, j, (fuel - 1) as nat),
            Err(pe) => (Err(pe), j),
        }
    }
}

/// The left-associative continuation of the equality level.
pub open spec fn spec_equality_rest(ts: Seq<TokenTypeV>, acc: ExprV, i: int, fuel: nat) -> (
    Result<ExprV, ParseError>,
    int,
)
    decreases fuel,
{
    if fuel == 0 {
        (Err(ParseError::TooDeeplyNested), i)
    } else if is_equality_op(cur(ts, i)) {
        let op = cur(ts, i)->Operator_0;
        let (r, j) = spec_comparison(ts, adv(ts, i), (fuel - 1) as nat);
        match r {
            Ok(e) => spec_equality_rest(
                ts,
                ExprV::Binary(Box::new(acc), op, Box::new(e)),
                j,
                (fuel - 1) as nat,
            ),
            Err(pe) => (Err(pe), j),
        }
    } else {
        (Ok(acc), i)
    }
}

/// equality := comparison (("==" | "!=") comparison)*
pub open spec fn spec_equality(ts: Seq<TokenTypeV>, i: int, fuel: nat) -> (
    Result<ExprV, ParseError>,
    int,
)
    decreases fuel,
{
    if fuel == 0 {
        (Err(ParseError::TooDeeplyNested), i)
    } else {
        let (r, j) = spec_comparison(ts, i, (fuel - 1) as nat);
        match r {
            Ok(e) => spec_equality_rest(ts, e, j, (fuel - 1) as nat),
            Err(pe) => (Err(pe), j),
        }
    }
}

/// The short-circuit continuation of the `&&` level.
pub open spec fn spec_and_rest(ts: Seq<TokenTypeV>, acc: ExprV, i: int, fuel: nat) -> (
    Result<ExprV, ParseError>,
    int,
)
    decreases fuel,
{
    if fuel == 0 {
        (Err(ParseError::TooDeeplyNested), i)
    } else if cur(ts, i) == TokenTypeV::Operator(Operator::And) {
        let (r, j) = spec_equality(ts, adv(ts, i), (fuel - 1) as nat);
        match r {
            Ok(e) => spec_and_rest(
                ts,
                ExprV::Logical(Box::new(acc), Operator::And, Box::new(e)),
                j,
                (fuel - 1) as nat,
            ),
            Err(pe) => (Err(pe), j),
        }
    } else {
        (Ok(acc), i)
    }
}

/// logic_and := equality ("&&" equality)*
pub open spec fn spec_and(ts: Seq<TokenTypeV>, i: int, fuel: nat) -> (Result<ExprV, ParseError>, int)
    decreases fuel,
{
    if fuel == 0 {
        (Err(ParseError::TooDeeplyNested), i)
    } else {
        let (r, j) = spec_equality(ts, i, (fuel - 1) as nat);
        match r {
            Ok(e) => spec_and_rest(ts, e, j, (fuel - 1) as nat),
            Err(pe) => (Err(pe), j),
        }
    }
}

/// The short-circuit continuation of the `||` level.
pub open spec fn spec_or_rest(ts: Seq<TokenTypeV>, acc: ExprV, i: int, fuel: nat) -> (
    Result<ExprV, ParseError>,
    int,
)
    decreases fuel,
{
    if fuel == 0 {
        (Err(ParseError::TooDeeplyNested), i)
    } else if cur(ts, i) == TokenTypeV::Operator(Operator::Or) {
        let (r, j) = spec_and(ts, adv(ts, i), (fuel - 1) as nat);
        match r {
            Ok(e) => spec_or_rest(
                ts,
                ExprV::Logical(Box::new(acc), Operator::Or, Box::new(e)),
                j,
                (fuel - 1) as nat,
            ),
            Err(pe) => (Err(pe), j),
        }
    } else {
        (Ok(acc), i)
    }
}

/// logic_or := logic_and ("||" logic_and)*
pub open spec fn spec_or(ts: Seq<TokenTypeV>, i: int, fuel: nat) -> (Result<ExprV, ParseError>, int)
    decreases fuel,
{
    if fuel == 0 {
        (Err(ParseError::TooDeeplyNested), i)
    } else {
        let (r, j) = spec_and(ts, i, (fuel - 1) as nat);
        match r {
            Ok(e) => spec_or_rest(ts, e, j, (fuel - 1) as nat),
            Err(pe) => (Err(pe), j),
        }
    }
}

/// assignment := IDENT "=" assignment | logic_or; assignment to anything
/// but a name is reported after its value is parsed.
pub open spec fn spec_assignment(ts: Seq<TokenTypeV>, i: int, fuel: nat) -> (
    Result<ExprV, ParseError>,
    int,
)
    decreases fuel,
{
    if fuel == 0 {
        (Err(ParseError::TooDeeplyNested), i)
    } else {
        let (r, j) = spec_or(ts, i, (fuel - 1) as nat);
        match r {
            Ok(e) => {
                if cur(ts, j) == TokenTypeV::Operator(Operator::Eq) {
                    let (r2, k) = spec_assignment(ts, adv(ts, j), (fuel - 1) as nat);
                    match r2 {
                        Ok(v) => match e {
                            ExprV::Variable(name) => (
                                Ok(ExprV::Assign(name, Box::new(v))),
                                k,
                            ),
                            _ => (Err(ParseError::InvalidAssignmentTarget), k),
                        },
                        Err(pe) => (Err(pe), k),
                    }
                } else {
                    (Ok(e), j)
                }
            },
            Err(pe) => (Err(pe), j),
        }
    }
}

/// expression := assignment
#[verifier::opaque]
pub open spec fn spec_expression(ts: Seq<TokenTypeV>, i: int, fuel: nat) -> (
    Result<ExprV, ParseError>,
    int,
)
    decreases fuel,
{
    if fuel == 0 {
        (Err(ParseError::TooDeeplyNested), i)
    } else {
        spec_assignment(ts, i, (fuel - 1) as nat)
    }
}

/// print := "print" expression ";"
pub open spec fn spec_print_stmt(ts: Seq<TokenTypeV>, i: int, fuel: nat) -> (
    Result<StmtV, ParseError>,
    int,
)
    decreases fuel,
{
    if fuel == 0 {
        (Err(ParseError::TooDeeplyNested), i)
    } else {
        let (r, j) = spec_expression(ts, i, (fuel - 1) as nat);
        match r {
            Ok(e) => {
                let (er, k) = spec_expect(
                    ts,
                    j,
                    TokenTypeV::Punctuation(Punctuation::Semicolon),
                    ParseError::ExpectedSemiAfterPrint,
                );
                match er {
                    Ok(_) => (Ok(StmtV::Print(e)), k),
                    Err(pe) => (Err(pe), k),
                }
            },
            Err(pe) => (Err(pe), j),
        }
    }
}

/// exprStmt := expression ";"
pub open spec fn spec_expr_stmt(ts: Seq<TokenTypeV>, i: int, fuel: nat) -> (
    Result<StmtV, ParseError>,
    int,
)
    decreases fuel,
{
    if fuel == 0 {
        (Err(ParseError::TooDeeplyNested), i)
    } else {
        let (r, j) = spec_expression(ts, i, (fuel - 1) as nat);
        match r {
            Ok(e) => {
                let (er, k) = spec_expect(
                    ts,
                    j,
                    TokenTypeV::Punctuation(Punctuation::Semicolon),
                    ParseError::ExpectedSemiAfterValue,
                );
                match er {
                    Ok(_) => (Ok(StmtV::Expression(e)), k),
                    Err(pe) => (Err(pe), k),
                }
            },
            Err(pe) => (Err(pe), j),
        }
    }
}

/// The declarations of a block up to its closing brace, the `{` already
/// consumed.
pub open spec fn spec_block_rest(ts: Seq<TokenTypeV>, acc: Seq<StmtV>, i: int, fuel: nat) -> (
    Result<StmtV, ParseError>,
    int,
)
    decreases fuel,
{
    if fuel == 0 {
        (Err(ParseError::TooDeeplyNested), i)
    } else if spec_check(ts, i, TokenTypeV::Punctuation(Punctuation::BracketCurlyClose)) {
        (Ok(StmtV::Block(acc)), adv(ts, i))
    } else if at_end(ts, i) {
        (Err(ParseError::ExpectedBraceClose), i)
    } else {
        let (r, j) = spec_declaration(ts, i, (fuel - 1) as nat);
        match r {
            Ok(d) => spec_block_rest(ts, acc + seq![d], j, (fuel - 1) as nat),
            Err(pe) => (Err(pe), j),
        }
    }
}

/// block := "{" declaration* "}", the `{` already consumed.
pub open spec fn spec_block(ts: Seq<TokenTypeV>, i: int, fuel: nat) -> (
    Result<StmtV, ParseError>,
    int,
)
    decreases fuel,
{
    if fuel == 0 {
        (Err(ParseError::TooDeeplyNested), i)
    } else {
        spec_block_rest(ts, Seq::empty(), i, (fuel - 1) as nat)
    }
}

/// if := "if" "(" expression ")" statement ("else" statement)?
pub open spec fn spec_if_stmt(ts: Seq<TokenTypeV>, i: int, fuel: nat) -> (
    Result<StmtV, ParseError>,
    int,
)
    decreases fuel,
{
    if fuel == 0 {
        (Err(ParseError::TooDeeplyNested), i)
    } else {
        let (op, i1) = spec_expect(
            ts,
            i,
            TokenTypeV::Punctuation(Punctuation::BracketOpen),
            ParseError::ExpectedParenOpenAfterIf,
        );
        match op {
            Ok(_) => {
                let (cr, j) = spec_expression(ts, i1, (fuel - 1) as nat);
                match cr {
                    Ok(c) => {
                        let (cp, j1) = spec_expect(
                            ts,
                            j,
                            TokenTypeV::Punctuation(Punctuation::BracketClose),
                            ParseError::ExpectedParenCloseAfterIfCond,
                        );
                        match cp {
                            Ok(_) => {
                                let (tr, k) = spec_statement(ts, j1, (fuel - 1) as nat);
                                match tr {
                                    Ok(t) => {
                                        if spec_check(ts, k, TokenTypeV::Keyword(Keyword::Else)) {
                                            let (er, m) = spec_statement(
                                                ts,
                                                adv(ts, k),
                                                (fuel - 1) as nat,
                                            );
                                            match er {
                                                Ok(e) => (
                                                    Ok(
                                                        StmtV::If(
                                                            c,
                                                            Box::new(t),
                                                            Some(Box::new(e)),
                                                        ),
                                                    ),
                                                    m,
                                                ),
                                                Err(pe) => (Err(pe), m),
                                            }
                                        } else {
                                            (Ok(StmtV::If(c, Box::new(t), None)), k)
                                        }
                                    },
                                    Err(pe) => (Err(pe), k),
                                }
                            },
                            Err(pe) => (Err(pe), j1),
                        }
                    },
                    Err(pe) => (Err(pe), j),
                }
            },
            Err(pe) => (Err(pe), i1),
        }
    }
}

/// while := "while" "(" expression ")" statement
pub open spec fn spec_while_stmt(ts: Seq<TokenTypeV>, i: int, fuel: nat) -> (
    Result<StmtV, ParseError>,
    int,
)
    decreases fuel,
{
    if fuel == 0 {
        (Err(ParseError::TooDeeplyNested), i)
    } else {
        let (op, i1) = spec_expect(
            ts,
            i,
            TokenTypeV::Punctuation(Punctuation::BracketOpen),
            ParseError::ExpectedParenOpenBeforeWhile,
        );
        match op {
            Ok(_) => {
                let (cr, j) = spec_expression(ts, i1, (fuel - 1) as nat);
                match cr {
                    Ok(c) => {
                        let (cp, j1) = spec_expect(
                            ts,
                            j,
                            TokenTypeV::Punctuation(Punctuation::BracketClose),
                            ParseError::ExpectedParenCloseAfterWhile,
                        );
                        match cp {
                            Ok(_) => {
                                let (br, k) = spec_statement(ts, j1, (fuel - 1) as nat);
                                match br {
                                    Ok(b) => (Ok(StmtV::While(c, Box::new(b))), k),
                                    Err(pe) => (Err(pe), k),
                                }
                            },
                            Err(pe) => (Err(pe), j1),
                        }
                    },
                    Err(pe) => (Err(pe), j),
                }
            },
            Err(pe) => (Err(pe), i1),
        }
    }
}

/// for := "for" "(" (varDecl | exprStmt | ";") expression? ";" expression? ")"
/// statement
pub open spec fn spec_for_stmt(ts: Seq<TokenTypeV>, i: int, fuel: nat) -> (
    Result<StmtV, ParseError>,
    int,
)
    decreases fuel,
{
    if fuel == 0 {
        (Err(ParseError::TooDeeplyNested), i)
    } else {
        let (op, i1) = spec_expect(
            ts,
            i,
            TokenTypeV::Punctuation(Punctuation::BracketOpen),
            ParseError::ExpectedParenOpenBeforeFor,
        );
        match op {
            Ok(_) => {
                let (ir, j) = if spec_check(ts, i1, TokenTypeV::Punctuation(Punctuation::Semicolon)) {
                    (Ok(None), adv(ts, i1))
                } else if spec_check(ts, i1, TokenTypeV::Keyword(Keyword::Var)) {
                    let (vr, j0) = spec_var_declaration(ts, adv(ts, i1), (fuel - 1) as nat);
                    match vr {
                        Ok(v) => (Ok(Some(Box::new(v))), j0),
                        Err(pe) => (Err(pe), j0),
                    }
                } else {
                    let (er, j0) = spec_expr_stmt(ts, i1, (fuel - 1) as nat);
                    match er {
                        Ok(e) => (Ok(Some(Box::new(e))), j0),
                        Err(pe) => (Err(pe), j0),
                    }
                };
                match ir {
                    Ok(init) => {
                        let (condr, k) = if spec_check(
                            ts,
                            j,
                            TokenTypeV::Punctuation(Punctuation::Semicolon),
                        ) {
                            (Ok(None), j)
                        } else {
                            let (cr, k0) = spec_expression(ts, j, (fuel - 1) as nat);
                            match cr {
                                Ok(c) => (Ok(Some(c)), k0),
                                Err(pe) => (Err(pe), k0),
                            }
                        };
                        match condr {
                            Ok(cond) => {
                                let (sr, k1) = spec_expect(
                                    ts,
                                    k,
                                    TokenTypeV::Punctuation(Punctuation::Semicolon),
                                    ParseError::ExpectedSemiAfterForCond,
                                );
                                match sr {
                                    Ok(_) => {
                                        let (incrr, m) = if spec_check(
                                            ts,
                                            k1,
                                            TokenTypeV::Punctuation(Punctuation::BracketClose),
                                        ) {
                                            (Ok(None), k1)
                                        } else {
                                            let (er, m0) = spec_expression(
                                                ts,
                                                k1,
                                                (fuel - 1) as nat,
                                            );
                                            match er {
                                                Ok(e) => (Ok(Some(e)), m0),
                                                Err(pe) => (Err(pe), m0),
                                            }
                                        };
                                        match incrr {
                                            Ok(incr) => {
                                                let (cp, m1) = spec_expect(
                                                    ts,
                                                    m,
                                                    TokenTypeV::Punctuation(
                                                        Punctuation::BracketClose,
                                                    ),
                                                    ParseError::ExpectedParenCloseAfterFor,
                                                );
                                                match cp {
                                                    Ok(_) => {
                                                        let (br, n) = spec_statement(
                                                            ts,
                                                            m1,
                                                            (fuel - 1) as nat,
                                                        );
                                                        match br {
                                                            Ok(b) => (
                                                                Ok(
                                                                    StmtV::For(
                                                                        init,
                                                                        cond,
                                                                        incr,
                                                                        Box::new(b),
                                                                    ),
                                                                ),
                                                                n,
                                                            ),
                                                            Err(pe) => (Err(pe), n),
                                                        }
                                                    },
                                                    Err(pe) => (Err(pe), m1),
                                                }
                                            },
                                            Err(pe) => (Err(pe), m),
                                        }
                                    },
                                    Err(pe) => (Err(pe), k1),
                                }
                            },
                            Err(pe) => (Err(pe), k),
                        }
                    },
                    Err(pe) => (Err(pe), j),
                }
            },
            Err(pe) => (Err(pe), i1),
        }
    }
}

/// return := "return" expression? ";"; a bare return carries `null`.
pub open spec fn spec_return_stmt(ts: Seq<TokenTypeV>, i: int, fuel: nat) -> (
    Result<StmtV, ParseError>,
    int,
)
    decreases fuel,
{
    if fuel == 0 {
        (Err(ParseError::TooDeeplyNested), i)
    } else {
        let (vr, j) = if spec_check(ts, i, TokenTypeV::Punctuation(Punctuation::Semicolon)) {
            (Ok(ExprV::Literal(LiteralV::Null)), i)
        } else {
            spec_expression(ts, i, (fuel - 1) as nat)
        };
        match vr {
            Ok(v) => {
                let (sr, k) = spec_expect(
                    ts,
                    j,
                    TokenTypeV::Punctuation(Punctuation::Semicolon),
                    ParseError::ExpectedSemiAfterReturn,
                );
                match sr {
                    Ok(_) => (Ok(StmtV::Return(v)), k),
                    Err(pe) => (Err(pe), k),
                }
            },
            Err(pe) => (Err(pe), j),
        }
    }
}

/// statement := ifStmt | printStmt | returnStmt | whileStmt | forStmt
/// | block | exprStmt
#[verifier::opaque]
pub open spec fn spec_statement(ts: Seq<TokenTypeV>, i: int, fuel: nat) -> (
    Result<StmtV, ParseError>,
    int,
)
    decreases fuel,
{
    if fuel == 0 {
        (Err(ParseError::TooDeeplyNested), i)
    } else if spec_check(ts, i, TokenTypeV::Keyword(Keyword::If)) {
        spec_if_stmt(ts, adv(ts, i), (fuel - 1) as nat)
    } else if spec_check(ts, i, TokenTypeV::Keyword(Keyword::Print)) {
        spec_print_stmt(ts, adv(ts, i), (fuel - 1) as nat)
    } else if spec_check(ts, i, TokenTypeV::Keyword(Keyword::Return)) {
        spec_return_stmt(ts, adv(ts, i), (fuel - 1) as nat)
    } else if spec_check(ts, i, TokenTypeV::Keyword(Keyword::While)) {
        spec_while_stmt(ts, adv(ts, i), (fuel - 1) as nat)
    } else if spec_check(ts, i, TokenTypeV::Keyword(Keyword::For)) {
        spec_for_stmt(ts, adv(ts, i), (fuel - 1) as nat)
    } else if spec_check(ts, i, TokenTypeV::Punctuation(Punctuation::BracketCurlyOpen)) {
        spec_block(ts, adv(ts, i), (fuel - 1) as nat)
    } else {
        spec_expr_stmt(ts, i, (fuel - 1) as nat)
    }
}

/// varDecl := "var" IDENT ("=" expression)? ";", the `var` already consumed.
pub open spec fn spec_var_declaration(ts: Seq<TokenTypeV>, i: int, fuel: nat) -> (
    Result<StmtV, ParseError>,
    int,
)
    decreases fuel,
{
    if fuel == 0 {
        (Err(ParseError::TooDeeplyNested), i)
    } else {
        match cur(ts, i) {
            TokenTypeV::Identifier(name) => {
                let i1 = adv(ts, i);
                let (ir, j) = if spec_check(ts, i1, TokenTypeV::Operator(Operator::Eq)) {
                    let (er, j0) = spec_expression(ts, adv(ts, i1), (fuel - 1) as nat);
                    match er {
                        Ok(e) => (Ok(Some(e)), j0),
                        Err(pe) => (Err(pe), j0),
                    }
                } else {
                    (Ok(None), i1)
                };
                match ir {
                    Ok(init) => {
                        let (sr, k) = spec_expect(
                            ts,
                            j,
                            TokenTypeV::Punctuation(Punctuation::Semicolon),
                            ParseError::ExpectedSemiAfterVarInit,
                        );
                        match sr {
                            Ok(_) => (Ok(StmtV::Var(name, init)), k),
                            Err(pe) => (Err(pe), k),
                        }
                    },
                    Err(pe) => (Err(pe), j),
                }
            },
            _ => (Err(ParseError::ExpectedVarName), i),
        }
    }
}

/// The parameter names of a function head: names separated by commas; a
/// stray comma is passed over as the original grammar does.
pub open spec fn spec_fn_params(ts: Seq<TokenTypeV>, i: int, acc: Seq<ExprV>, fuel: nat) -> (
    Seq<ExprV>,
    int,
)
    decreases fuel,
{
    if fuel == 0 {
        (acc, i)
    } else {
        let (acc1, i1) = match cur(ts, i) {
            TokenTypeV::Identifier(name) => (acc + seq![ExprV::Variable(name)], adv(ts, i)),
            _ => (acc, i),
        };
        if spec_check(ts, i1, TokenTypeV::Punctuation(Punctuation::Comma)) {
            spec_fn_params(ts, adv(ts, i1), acc1, (fuel - 1) as nat)
        } else {
            (acc1, i1)
        }
    }
}

/// funDecl := "fn" IDENT "(" params? ")" block, the `fn` already consumed.
pub open spec fn spec_fn_declaration(ts: Seq<TokenTypeV>, i: int, fuel: nat) -> (
    Result<StmtV, ParseError>,
    int,
)
    decreases fuel,
{
    if fuel == 0 {
        (Err(ParseError::TooDeeplyNested), i)
    } else {
        match cur(ts, i) {
            TokenTypeV::Identifier(name) => {
                let (op, i1) = spec_expect(
                    ts,
                    adv(ts, i),
                    TokenTypeV::Punctuation(Punctuation::BracketOpen),
                    ParseError::ExpectedParenOpenAfterFnName,
                );
                match op {
                    Ok(_) => {
                        let (params, j) = if spec_check(
                            ts,
                            i1,
                            TokenTypeV::Punctuation(Punctuation::BracketClose),
                        ) {
                            (Seq::<ExprV>::empty(), i1)
                        } else {
                            spec_fn_params(ts, i1, Seq::empty(), (fuel - 1) as nat)
                        };
                        let (cp, j1) = spec_expect(
                            ts,
                            j,
                            TokenTypeV::Punctuation(Punctuation::BracketClose),
                            ParseError::ExpectedParenCloseAfterFnArgs,
                        );
                        match cp {
                            Ok(_) => {
                                if spec_check(
                                    ts,
                                    j1,
                                    TokenTypeV::Punctuation(Punctuation::BracketCurlyOpen),
                                ) {
                                    let (br, k) = spec_block(ts, adv(ts, j1), (fuel - 1) as nat);
                                    match br {
                                        Ok(b) => (
                                            Ok(StmtV::Function(name, params, Box::new(b))),
                                            k,
                                        ),
                                        Err(pe) => (Err(pe), k),
                                    }
                                } else {
                                    (Err(ParseError::ExpectedBlockStart), j1)
                                }
                            },
                            Err(pe) => (Err(pe), j1),
                        }
                    },
                    Err(pe) => (Err(pe), i1),
                }
            },
            _ => (Err(ParseError::ExpectedFnName), i),
        }
    }
}

/// declaration := varDecl | funDecl | statement
pub open spec fn spec_declaration(ts: Seq<TokenTypeV>, i: int, fuel: nat) -> (
    Result<StmtV, ParseError>,
    int,
)
    decreases fuel,
{
    if fuel == 0 {
        (Err(ParseError::TooDeeplyNested), i)
    } else if spec_check(ts, i, TokenTypeV::Keyword(Keyword::Var)) {
        spec_var_declaration(ts, adv(ts, i), (fuel - 1) as nat)
    } else if spec_check(ts, i, TokenTypeV::Keyword(Keyword::Function)) {
        spec_fn_declaration(ts, adv(ts, i), (fuel - 1) as nat)
    } else {
        spec_statement(ts, i, (fuel - 1) as nat)
    }
}

/// A token that begins a statement, where synchronisation stops.
pub open spec fn spec_sync_start(t: TokenTypeV) -> bool {
    ||| t == TokenTypeV::Keyword(Keyword::Class)
    ||| t == TokenTypeV::Keyword(Keyword::Function)
    ||| t == TokenTypeV::Keyword(Keyword::Var)
    ||| t == TokenTypeV::Keyword(Keyword::For)
    ||| t == TokenTypeV::Keyword(Keyword::If)
    ||| t == TokenTypeV::Keyword(Keyword::While)
    ||| t == TokenTypeV::Keyword(Keyword::Print)
    ||| t == TokenTypeV::Keyword(Keyword::Return)
}

/// Skipping after the first step of synchronisation: tokens pass until the
/// end, a spot just after a `;`, or the start of a statement.
pub open spec fn spec_sync_rest(ts: Seq<TokenTypeV>, i: int, fuel: nat) -> int
    decreases fuel,
{
    if fuel == 0 {
        i
    } else if at_end(ts, i) {
        i
    } else if cur(ts, i - 1) == TokenTypeV::Punctuation(Punctuation::Semicolon) {
        i
    } else if spec_sync_start(cur(ts, i)) {
        i
    } else {
        spec_sync_rest(ts, adv(ts, i), (fuel - 1) as nat)
    }
}

/// Error recovery: step over the offending token, then skip to the next
/// statement boundary.
pub open spec fn spec_sync(ts: Seq<TokenTypeV>, i: int, fuel: nat) -> int {
    spec_sync_rest(ts, adv(ts, i), fuel)
}

/// The whole program: declarations collected in order; on an error its
/// message is recorded and parsing resumes after synchronisation.
pub open spec fn spec_parse(
    ts: Seq<TokenTypeV>,
    i: int,
    stmts: Seq<StmtV>,
    errs: Seq<ParseError>,
    fuel: nat,
) -> (Seq<StmtV>, Seq<ParseError>)
    decreases fuel,
{
    if fuel == 0 {
        (stmts, errs + seq![ParseError::TooDeeplyNested])
    } else if at_end(ts, i) {
        (stmts, errs)
    } else {
        let (r, j) = spec_declaration(ts, i, (fuel - 1) as nat);
        match r {
            Ok(d) => spec_parse(ts, j, stmts + seq![d], errs, (fuel - 1) as nat),
            Err(pe) => {
                let k = spec_sync(ts, j, (fuel - 1) as nat);
                spec_parse(ts, k, stmts, errs + seq![pe], (fuel - 1) as nat)
            },
        }
    }
}


/// The parser over a token stream, with one-token lookahead.
pub struct Parser {
    tokens: Vec<Token>,
    pos: usize,
}

/// The mathematical shape of a parser: the token kinds and the position of
/// the current token.
pub struct ParserV {
    pub tokens: Seq<TokenTypeV>,
    pub pos: int,
}

impl View for Parser {
    type V = ParserV;

    closed spec fn view(&self) -> ParserV {
        ParserV {
            tokens: self.tokens@.map_values(|t: Token| t@.token_type),
            pos: self.pos as int,
        }
    }
}

impl Parser {
    pub fn new(tokens: Vec<Token>) -> (r: Parser)
        ensures
            r@.tokens == tokens@.map_values(|t: Token| t@.token_type),
            r@.pos == 0,
    {
        Parser { tokens, pos: 0 }
    }

    fn is_at_end(&self) -> (r: bool)
        ensures
            r == at_end(self@.tokens, self@.pos),
    {
        if self.pos < self.tokens.len() {
            proof {
                assert(self@.tokens[self.pos as int] == self.tokens@[self.pos as int]@.token_type);
            }
            match self.tokens[self.pos].get() {
                TokenType::EndOfFile => true,
                _ => false,
            }
        } else {
            true
        }
    }

    fn check(&self, token: &TokenType) -> (r: bool)
        ensures
            r == spec_check(self@.tokens, self@.pos, token@),
    {
        if self.pos < self.tokens.len() {
            proof {
                assert(self@.tokens[self.pos as int] == self.tokens@[self.pos as int]@.token_type);
            }
            let c = self.tokens[self.pos].get();
            match c {
                TokenType::EndOfFile => false,
                _ => c == token,
            }
        } else {
            false
        }
    }

    /// Step over the current token, staying put at the end of input.
    fn advance(&mut self)
        ensures
            final(self)@.tokens == old(self)@.tokens,
            final(self)@.pos == adv(old(self)@.tokens, old(self)@.pos),
    {
        if self.pos < self.tokens.len() {
            self.pos += 1;
        }
    }

    /// A copy of the current token kind; the end sentinel past the input.
    fn peek(&self) -> (r: TokenType)
        ensures
            r@ == cur(self@.tokens, self@.pos),
    {
        if self.pos < self.tokens.len() {
            proof {
                assert(self@.tokens[self.pos as int] == self.tokens@[self.pos as int]@.token_type);
            }
            tt_clone(self.tokens[self.pos].get())
        } else {
            TokenType::EndOfFile
        }
    }

    /// Demand the given token here; consume it or report `e`.
    fn assert_next(&mut self, expected: &TokenType, e: ParseError) -> (r: Result<(), ParseError>)
        ensures
            ({
                let (sr, sp) = spec_expect(old(self)@.tokens, old(self)@.pos, expected@, e);
                &&& final(self)@.tokens == old(self)@.tokens
                &&& final(self)@.pos == sp
                &&& r == sr
            }),
    {
        if self.check(expected) {
            self.advance();
            Ok(())
        } else {
            Err(e)
        }
    }

    #[verifier::rlimit(100)]
    fn primary(&mut self, fuel: u64) -> (r: Result<Expr, ParseError>)
        ensures
            ({
                let (sr, sp) = spec_primary(old(self)@.tokens, old(self)@.pos, fuel as nat);
                &&& final(self)@.tokens == old(self)@.tokens
                &&& final(self)@.pos == sp
                &&& match r {
                    Ok(e) => sr == Ok::<ExprV, ParseError>(e@),
                    Err(pe) => sr == Err::<ExprV, ParseError>(pe),
                }
            }),
        decreases fuel,
    {
        proof {
            reveal_with_fuel(spec_expression, 1);
        }
        if fuel == 0 {
            return Err(ParseError::TooDeeplyNested);
        }
        let t = self.peek();
        match t {
            TokenType::Literal(l) => {
                self.advance();
                Ok(Expr::Literal(l))
            },
            TokenType::Identifier(name) => {
                self.advance();
                Ok(Expr::Variable(name))
            },
            TokenType::Punctuation(Punctuation::BracketOpen) => {
                self.advance();
                match self.expression(fuel - 1) {
                    Ok(e) => {
                        if self.check(&TokenType::Punctuation(Punctuation::BracketClose)) {
                            self.advance();
                            Ok(Expr::Grouping(Box::new(e)))
                        } else {
                            Err(ParseError::ExpectedParenCloseAfterExpr)
                        }
                    },
                    Err(pe) => Err(pe),
                }
            },
            _ => Err(ParseError::UnexpectedPrimary),
        }
    }

    #[verifier::spinoff_prover]
    #[verifier::rlimit(100)]
    fn call_args(&mut self, Ghost(accv): Ghost<Seq<ExprV>>, acc: Vec<Expr>, fuel: u64) -> (r:
        Result<Vec<Expr>, ParseError>)
        requires
            accv == crate::expr::exprs_view(acc@),
        ensures
            ({
                let (sr, sp) = spec_call_args(
                    old(self)@.tokens,
                    old(self)@.pos,
                    accv,
                    fuel as nat,
                );
                &&& final(self)@.tokens == old(self)@.tokens
                &&& final(self)@.pos == sp
                &&& match r {
                    Ok(args) => sr == Ok::<Seq<ExprV>, ParseError>(crate::expr::exprs_view(args@)),
                    Err(pe) => sr == Err::<Seq<ExprV>, ParseError>(pe),
                }
            }),
        decreases fuel,
    {
        if fuel == 0 {
            return Err(ParseError::TooDeeplyNested);
        }
        let mut items = acc;
        let ghost acc0 = items@;
        match self.expression(fuel - 1) {
            Ok(e) => {
                let ghost ev = e@;
                items.push(e);
                proof {
                    crate::expr::lemma_exprs_view_push(acc0, items@[items@.len() - 1]);
                    assert(items@ =~= acc0.push(items@[items@.len() - 1]));
                }
                if self.check(&TokenType::Punctuation(Punctuation::Comma)) {
                    self.advance();
                    self.call_args(Ghost(crate::expr::exprs_view(items@)), items, fuel - 1)
                } else {
                    Ok(items)
                }
            },
            Err(pe) => Err(pe),
        }
    }

    #[verifier::spinoff_prover]
    #[verifier::rlimit(100)]
    fn finish_call(&mut self, Ghost(calleev): Ghost<ExprV>, callee: Expr, fuel: u64) -> (r:
        Result<Expr, ParseError>)
        requires
            calleev == callee@,
        ensures
            ({
                let (sr, sp) = spec_finish_call(
                    old(self)@.tokens,
                    old(self)@.pos,
                    calleev,
                    fuel as nat,
                );
                &&& final(self)@.tokens == old(self)@.tokens
                &&& final(self)@.pos == sp
                &&& match r {
                    Ok(e) => sr == Ok::<ExprV, ParseError>(e@),
                    Err(pe) => sr == Err::<ExprV, ParseError>(pe),
                }
            }),
        decreases fuel,
    {
        if fuel == 0 {
            return Err(ParseError::TooDeeplyNested);
        }
        let args_r: Result<Vec<Expr>, ParseError> = if self.check(
            &TokenType::Punctuation(Punctuation::BracketClose),
        ) {
            Ok(Vec::new())
        } else {
            proof {
                crate::expr::lemma_exprs_view(Seq::<Expr>::empty());
            }
            self.call_args(Ghost(Seq::empty()), Vec::new(), fuel - 1)
        };
        proof {
            crate::expr::lemma_exprs_view(Seq::<Expr>::empty());
        }
        match args_r {
            Ok(args) => {
                match self.assert_next(
                    &TokenType::Punctuation(Punctuation::BracketClose),
                    ParseError::ExpectedParenCloseAfterArgs,
                ) {
                    Ok(_) => Ok(Expr::Call(Box::new(callee), args)),
                    Err(pe) => Err(pe),
                }
            },
            Err(pe) => Err(pe),
        }
    }

    fn call_rest(&mut self, Ghost(calleev): Ghost<ExprV>, callee: Expr, fuel: u64) -> (r:
        Result<Expr, ParseError>)
        requires
            calleev == callee@,
        ensures
            ({
                let (sr, sp) = spec_call_rest(
                    old(self)@.tokens,
                    calleev,
                    old(self)@.pos,
                    fuel as nat,
                );
                &&& final(self)@.tokens == old(self)@.tokens
                &&& final(self)@.pos == sp
                &&& match r {
                    Ok(e) => sr == Ok::<ExprV, ParseError>(e@),
                    Err(pe) => sr == Err::<ExprV, ParseError>(pe),
                }
            }),
        decreases fuel,
    {
        if fuel == 0 {
            return Err(ParseError::TooDeeplyNested);
        }
        if self.check(&TokenType::Punctuation(Punctuation::BracketOpen)) {
            self.advance();
            match self.finish_call(Ghost(callee@), callee, fuel - 1) {
                Ok(e) => self.call_rest(Ghost(e@), e, fuel - 1),
                Err(pe) => Err(pe),
            }
        } else {
            Ok(callee)
        }
    }

    fn call(&mut self, fuel: u64) -> (r: Result<Expr, ParseError>)
        ensures
            ({
                let (sr, sp) = spec_call_level(old(self)@.tokens, old(self)@.pos, fuel as nat);
                &&& final(self)@.tokens == old(self)@.tokens
                &&& final(self)@.pos == sp
                &&& match r {
                    Ok(e) => sr == Ok::<ExprV, ParseError>(e@),
                    Err(pe) => sr == Err::<ExprV, ParseError>(pe),
                }
            }),
        decreases fuel,
    {
        if fuel == 0 {
            return Err(ParseError::TooDeeplyNested);
        }
        match self.primary(fuel - 1) {
            Ok(e) => self.call_rest(Ghost(e@), e, fuel - 1),
            Err(pe) => Err(pe),
        }
    }

    fn unary(&mut self, fuel: u64) -> (r: Result<Expr, ParseError>)
        ensures
            ({
                let (sr, sp) = spec_unary(old(self)@.tokens, old(self)@.pos, fuel as nat);
                &&& final(self)@.tokens == old(self)@.tokens
                &&& final(self)@.pos == sp
                &&& match r {
                    Ok(e) => sr == Ok::<ExprV, ParseError>(e@),
                    Err(pe) => sr == Err::<ExprV, ParseError>(pe),
                }
            }),
        decreases fuel,
    {
        if fuel == 0 {
            return Err(ParseError::TooDeeplyNested);
        }
        let t = self.peek();
        match t {
            TokenType::Operator(op) => {
                if matches!(op, Operator::Not | Operator::Sub | Operator::Add) {
                    self.advance();
                    match self.unary(fuel - 1) {
                        Ok(e) => Ok(Expr::Unary(op, Box::new(e))),
                        Err(pe) => Err(pe),
                    }
                } else {
                    self.call(fuel - 1)
                }
            },
            _ => self.call(fuel - 1),
        }
    }

    #[verifier::spinoff_prover]
    #[verifier::rlimit(100)]
    fn factor_rest(&mut self, Ghost(accv): Ghost<ExprV>, acc: Expr, fuel: u64) -> (r: Result<
        Expr,
        ParseError,
    >)
        requires
            accv == acc@,
        ensures
            ({
                let (sr, sp) = spec_factor_rest(
                    old(self)@.tokens,
                    accv,
                    old(self)@.pos,
                    fuel as nat,
                );
                &&& final(self)@.tokens == old(self)@.tokens
                &&& final(self)@.pos == sp
                &&& match r {
                    Ok(e) => sr == Ok::<ExprV, ParseError>(e@),
                    Err(pe) => sr == Err::<ExprV, ParseError>(pe),
                }
            }),
        decreases fuel,
    {
        if fuel == 0 {
            return Err(ParseError::TooDeeplyNested);
        }
        let t = self.peek();
        match t {
            TokenType::Operator(op) => {
                if matches!(op, Operator::Mul | Operator::Div) {
                    self.advance();
                    match self.unary(fuel - 1) {
                        Ok(e) => {
                            let newe = Expr::Binary(Box::new(acc), op, Box::new(e));
                            self.factor_rest(Ghost(newe@), newe, fuel - 1)
                        },
                        Err(pe) => Err(pe),
                    }
                } else {
                    Ok(acc)
                }
            },
            _ => Ok(acc),
        }
    }

    fn factor(&mut self, fuel: u64) -> (r: Result<Expr, ParseError>)
        ensures
            ({
                let (sr, sp) = spec_factor(old(self)@.tokens, old(self)@.pos, fuel as nat);
                &&& final(self)@.tokens == old(self)@.tokens
                &&& final(self)@.pos == sp
                &&& match r {
                    Ok(e) => sr == Ok::<ExprV, ParseError>(e@),
                    Err(pe) => sr == Err::<ExprV, ParseError>(pe),
                }
            }),
        decreases fuel,
    {
        if fuel == 0 {
            return Err(ParseError::TooDeeplyNested);
        }
        match self.unary(fuel - 1) {
            Ok(e) => self.factor_rest(Ghost(e@), e, fuel - 1),
            Err(pe) => Err(pe),
        }
    }

    #[verifier::spinoff_prover]
    #[verifier::rlimit(100)]
    fn term_rest(&mut self, Ghost(accv): Ghost<ExprV>, acc: Expr, fuel: u64) -> (r: Result<
        Expr,
        ParseError,
    >)
        requires
            accv == acc@,
        ensures
            ({
                let (sr, sp) = spec_term_rest(old(self)@.tokens, accv, old(self)@.pos, fuel as nat);
                &&& final(self)@.tokens == old(self)@.tokens
                &&& final(self)@.pos == sp
                &&& match r {
                    Ok(e) => sr == Ok::<ExprV, ParseError>(e@),
                    Err(pe) => sr == Err::<ExprV, ParseError>(pe),
                }
            }),
        decreases fuel,
    {
        if fuel == 0 {
            return Err(ParseError::TooDeeplyNested);
        }
        let t = self.peek();
        match t {
            TokenType::Operator(op) => {
                if matches!(op, Operator::Add | Operator::Sub) {
                    self.advance();
                    match self.factor(fuel - 1) {
                        Ok(e) => {
                            let newe = Expr::Binary(Box::new(acc), op, Box::new(e));
                            self.term_rest(Ghost(newe@), newe, fuel - 1)
                        },
                        Err(pe) => Err(pe),
                    }
                } else {
                    Ok(acc)
                }
            },
            _ => Ok(acc),
        }
    }

    fn term(&mut self, fuel: u64) -> (r: Result<Expr, ParseError>)
        ensures
            ({
                let (sr, sp) = spec_term(old(self)@.tokens, old(self)@.pos, fuel as nat);
                &&& final(self)@.tokens == old(self)@.tokens
                &&& final(self)@.pos == sp
                &&& match r {
                    Ok(e) => sr == Ok::<ExprV, ParseError>(e@),
                    Err(pe) => sr == Err::<ExprV, ParseError>(pe),
                }
            }),
        decreases fuel,
    {
        if fuel == 0 {
            return Err(ParseError::TooDeeplyNested);
        }
        match self.factor(fuel - 1) {
            Ok(e) => self.term_rest(Ghost(e@), e, fuel - 1),
            Err(pe) => Err(pe),
        }
    }

    #[verifier::spinoff_prover]
    #[verifier::rlimit(100)]
    fn comparison_rest(&mut self, Ghost(accv): Ghost<ExprV>, acc: Expr, fuel: u64) -> (r: Result<
        Expr,
        ParseError,
    >)
        requires
            accv == acc@,
        ensures
            ({
                let (sr, sp) = spec_comparison_rest(
                    old(self)@.tokens,
                    accv,
                    old(self)@.pos,
                    fuel as nat,
                );
                &&& final(self)@.tokens == old(self)@.tokens
                &&& final(self)@.pos == sp
                &&& match r {
                    Ok(e) => sr == Ok::<ExprV, ParseError>(e@),
                    Err(pe) => sr == Err::<ExprV, ParseError>(pe),
                }
            }),
        decreases fuel,
    {
        if fuel == 0 {
            return Err(ParseError::TooDeeplyNested);
        }
        let t = self.peek();
        match t {
            TokenType::Operator(op) => {
                if matches!(op, Operator::Gt | Operator::Gte | Operator::Lt | Operator::Lte) {
                    self.advance();
                    match self.term(fuel - 1) {
                        Ok(e) => {
                            let newe = Expr::Binary(Box::new(acc), op, Box::new(e));
                            self.comparison_rest(Ghost(newe@), newe, fuel - 1)
                        },
                        Err(pe) => Err(pe),
                    }
                } else {
                    Ok(acc)
                }
            },
            _ => Ok(acc),
        }
    }

    fn comparison(&mut self, fuel: u64) -> (r: Result<Expr, ParseError>)
        ensures
            ({
                let (sr, sp) = spec_comparison(old(self)@.tokens, old(self)@.pos, fuel as nat);
                &&& final(self)@.tokens == old(self)@.tokens
                &&& final(self)@.pos == sp
                &&& match r {
                    Ok(e) => sr == Ok::<ExprV, ParseError>(e@),
                    Err(pe) => sr == Err::<ExprV, ParseError>(pe),
                }
            }),
        decreases fuel,
    {
        if fuel == 0 {
            return Err(ParseError::TooDeeplyNested);
        }
        match self.term(fuel - 1) {
            Ok(e) => self.comparison_rest(Ghost(e@), e, fuel - 1),
            Err(pe) => Err(pe),
        }
    }

    #[verifier::spinoff_prover]
    #[verifier::rlimit(100)]
    fn equality_rest(&mut self, Ghost(accv): Ghost<ExprV>, acc: Expr, fuel: u64) -> (r: Result<
        Expr,
        ParseError,
    >)
        requires
            accv == acc@,
        ensures
            ({
                let (sr, sp) = spec_equality_rest(
                    old(self)@.tokens,
                    accv,
                    old(self)@.pos,
                    fuel as nat,
                );
                &&& final(self)@.tokens == old(self)@.tokens
                &&& final(self)@.pos == sp
                &&& match r {
                    Ok(e) => sr == Ok::<ExprV, ParseError>(e@),
                    Err(pe) => sr == Err::<ExprV, ParseError>(pe),
                }
            }),
        decreases fuel,
    {
        if fuel == 0 {
            return Err(ParseError::TooDeeplyNested);
        }
        let t = self.peek();
        match t {
            TokenType::Operator(op) => {
                if matches!(op, Operator::EqEq | Operator::NotEq) {
                    self.advance();
                    match self.comparison(fuel - 1) {
                        Ok(e) => {
                            let newe = Expr::Binary(Box::new(acc), op, Box::new(e));
                            self.equality_rest(Ghost(newe@), newe, fuel - 1)
                        },
                        Err(pe) => Err(pe),
                    }
                } else {
                    Ok(acc)
                }
            },
            _ => Ok(acc),
        }
    }

    fn equality(&mut self, fuel: u64) -> (r: Result<Expr, ParseError>)
        ensures
            ({
                let (sr, sp) = spec_equality(old(self)@.tokens, old(self)@.pos, fuel as nat);
                &&& final(self)@.tokens == old(self)@.tokens
                &&& final(self)@.pos == sp
                &&& match r {
                    Ok(e) => sr == Ok::<ExprV, ParseError>(e@),
                    Err(pe) => sr == Err::<ExprV, ParseError>(pe),
                }
            }),
        decreases fuel,
    {
        if fuel == 0 {
            return Err(ParseError::TooDeeplyNested);
        }
        match self.comparison(fuel - 1) {
            Ok(e) => self.equality_rest(Ghost(e@), e, fuel - 1),
            Err(pe) => Err(pe),
        }
    }

    #[verifier::spinoff_prover]
    #[verifier::rlimit(100)]
    fn and_rest(&mut self, Ghost(accv): Ghost<ExprV>, acc: Expr, fuel: u64) -> (r: Result<
        Expr,
        ParseError,
    >)
        requires
            accv == acc@,
        ensures
            ({
                let (sr, sp) = spec_and_rest(old(self)@.tokens, accv, old(self)@.pos, fuel as nat);
                &&& final(self)@.tokens == old(self)@.tokens
                &&& final(self)@.pos == sp
                &&& match r {
                    Ok(e) => sr == Ok::<ExprV, ParseError>(e@),
                    Err(pe) => sr == Err::<ExprV, ParseError>(pe),
                }
            }),
        decreases fuel,
    {
        if fuel == 0 {
            return Err(ParseError::TooDeeplyNested);
        }
        if self.check(&TokenType::Operator(Operator::And)) {
            self.advance();
            match self.equality(fuel - 1) {
                Ok(e) => {
                    let newe = Expr::Logical(Box::new(acc), Operator::And, Box::new(e));
                    self.and_rest(Ghost(newe@), newe, fuel - 1)
                },
                Err(pe) => Err(pe),
            }
        } else {
            Ok(acc)
        }
    }

    fn and(&mut self, fuel: u64) -> (r: Result<Expr, ParseError>)
        ensures
            ({
                let (sr, sp) = spec_and(old(self)@.tokens, old(self)@.pos, fuel as nat);
                &&& final(self)@.tokens == old(self)@.tokens
                &&& final(self)@.pos == sp
                &&& match r {
                    Ok(e) => sr == Ok::<ExprV, ParseError>(e@),
                    Err(pe) => sr == Err::<ExprV, ParseError>(pe),
                }
            }),
        decreases fuel,
    {
        if fuel == 0 {
            return Err(ParseError::TooDeeplyNested);
        }
        match self.equality(fuel - 1) {
            Ok(e) => self.and_rest(Ghost(e@), e, fuel - 1),
            Err(pe) => Err(pe),
        }
    }

    #[verifier::rlimit(100)]
    #[verifier::spinoff_prover]
    #[verifier::rlimit(100)]
    fn or_rest(&mut self, Ghost(accv): Ghost<ExprV>, acc: Expr, fuel: u64) -> (r: Result<
        Expr,
        ParseError,
    >)
        requires
            accv == acc@,
        ensures
            ({
                let (sr, sp) = spec_or_rest(old(self)@.tokens, accv, old(self)@.pos, fuel as nat);
                &&& final(self)@.tokens == old(self)@.tokens
                &&& final(self)@.pos == sp
                &&& match r {
                    Ok(e) => sr == Ok::<ExprV, ParseError>(e@),
                    Err(pe) => sr == Err::<ExprV, ParseError>(pe),
                }
            }),
        decreases fuel,
    {
        if fuel == 0 {
            return Err(ParseError::TooDeeplyNested);
        }
        let res: Result<Expr, ParseError> = if self.check(&TokenType::Operator(Operator::Or)) {
            self.advance();
            match self.and(fuel - 1) {
                Ok(e) => {
                    let newe = Expr::Logical(Box::new(acc), Operator::Or, Box::new(e));
                    self.or_rest(Ghost(newe@), newe, fuel - 1)
                },
                Err(pe) => Err(pe),
            }
        } else {
            Ok(acc)
        };
        res
    }

    fn or(&mut self, fuel: u64) -> (r: Result<Expr, ParseError>)
        ensures
            ({
                let (sr, sp) = spec_or(old(self)@.tokens, old(self)@.pos, fuel as nat);
                &&& final(self)@.tokens == old(self)@.tokens
                &&& final(self)@.pos == sp
                &&& match r {
                    Ok(e) => sr == Ok::<ExprV, ParseError>(e@),
                    Err(pe) => sr == Err::<ExprV, ParseError>(pe),
                }
            }),
        decreases fuel,
    {
        if fuel == 0 {
            return Err(ParseError::TooDeeplyNested);
        }
        match self.and(fuel - 1) {
            Ok(e) => self.or_rest(Ghost(e@), e, fuel - 1),
            Err(pe) => Err(pe),
        }
    }

    fn assignment(&mut self, fuel: u64) -> (r: Result<Expr, ParseError>)
        ensures
            ({
                let (sr, sp) = spec_assignment(old(self)@.tokens, old(self)@.pos, fuel as nat);
                &&& final(self)@.tokens == old(self)@.tokens
                &&& final(self)@.pos == sp
                &&& match r {
                    Ok(e) => sr == Ok::<ExprV, ParseError>(e@),
                    Err(pe) => sr == Err::<ExprV, ParseError>(pe),
                }
            }),
        decreases fuel,
    {
        if fuel == 0 {
            return Err(ParseError::TooDeeplyNested);
        }
        match self.or(fuel - 1) {
            Ok(e) => {
                if self.check(&TokenType::Operator(Operator::Eq)) {
                    self.advance();
                    match self.assignment(fuel - 1) {
                        Ok(v) => match e {
                            Expr::Variable(name) => Ok(Expr::Assign(name, Box::new(v))),
                            _ => Err(ParseError::InvalidAssignmentTarget),
                        },
                        Err(pe) => Err(pe),
                    }
                } else {
                    Ok(e)
                }
            },
            Err(pe) => Err(pe),
        }
    }

    fn expression(&mut self, fuel: u64) -> (r: Result<Expr, ParseError>)
        ensures
            ({
                let (sr, sp) = spec_expression(old(self)@.tokens, old(self)@.pos, fuel as nat);
                &&& final(self)@.tokens == old(self)@.tokens
                &&& final(self)@.pos == sp
                &&& match r {
                    Ok(e) => sr == Ok::<ExprV, ParseError>(e@),
                    Err(pe) => sr == Err::<ExprV, ParseError>(pe),
                }
            }),
        decreases fuel,
    {
        proof {
            reveal_with_fuel(spec_expression, 1);
        }
        if fuel == 0 {
            return Err(ParseError::TooDeeplyNested);
        }
        self.assignment(fuel - 1)
    }

    #[verifier::spinoff_prover]
    #[verifier::rlimit(100)]
    fn print_stmt(&mut self, fuel: u64) -> (r: Result<Stmt, ParseError>)
        ensures
            ({
                let (sr, sp) = spec_print_stmt(old(self)@.tokens, old(self)@.pos, fuel as nat);
                &&& final(self)@.tokens == old(self)@.tokens
                &&& final(self)@.pos == sp
                &&& match r {
                    Ok(st) => sr == Ok::<StmtV, ParseError>(st@),
                    Err(pe) => sr == Err::<StmtV, ParseError>(pe),
                }
            }),
        decreases fuel,
    {
        if fuel == 0 {
            return Err(ParseError::TooDeeplyNested);
        }
        match self.expression(fuel - 1) {
            Ok(e) => {
                match self.assert_next(
                    &TokenType::Punctuation(Punctuation::Semicolon),
                    ParseError::ExpectedSemiAfterPrint,
                ) {
                    Ok(_) => Ok(Stmt::Print(e)),
                    Err(pe) => Err(pe),
                }
            },
            Err(pe) => Err(pe),
        }
    }

    #[verifier::spinoff_prover]
    #[verifier::rlimit(100)]
    fn expr_stmt(&mut self, fuel: u64) -> (r: Result<Stmt, ParseError>)
        ensures
            ({
                let (sr, sp) = spec_expr_stmt(old(self)@.tokens, old(self)@.pos, fuel as nat);
                &&& final(self)@.tokens == old(self)@.tokens
                &&& final(self)@.pos == sp
                &&& match r {
                    Ok(st) => sr == Ok::<StmtV, ParseError>(st@),
                    Err(pe) => sr == Err::<StmtV, ParseError>(pe),
                }
            }),
        decreases fuel,
    {
        if fuel == 0 {
            return Err(ParseError::TooDeeplyNested);
        }
        match self.expression(fuel - 1) {
            Ok(e) => {
                match self.assert_next(
                    &TokenType::Punctuation(Punctuation::Semicolon),
                    ParseError::ExpectedSemiAfterValue,
                ) {
                    Ok(_) => Ok(Stmt::Expression(e)),
                    Err(pe) => Err(pe),
                }
            },
            Err(pe) => Err(pe),
        }
    }

    #[verifier::spinoff_prover]
    #[verifier::rlimit(100)]
    fn block_rest(&mut self, Ghost(accv): Ghost<Seq<StmtV>>, acc: Vec<Stmt>, fuel: u64) -> (r:
        Result<Stmt, ParseError>)
        requires
            accv == crate::stmt::stmts_view(acc@),
        ensures
            ({
                let (sr, sp) = spec_block_rest(
                    old(self)@.tokens,
                    accv,
                    old(self)@.pos,
                    fuel as nat,
                );
                &&& final(self)@.tokens == old(self)@.tokens
                &&& final(self)@.pos == sp
                &&& match r {
                    Ok(st) => sr == Ok::<StmtV, ParseError>(st@),
                    Err(pe) => sr == Err::<StmtV, ParseError>(pe),
                }
            }),
        decreases fuel,
    {
        if fuel == 0 {
            return Err(ParseError::TooDeeplyNested);
        }
        if self.check(&TokenType::Punctuation(Punctuation::BracketCurlyClose)) {
            self.advance();
            return Ok(Stmt::Block(acc));
        }
        if self.is_at_end() {
            return Err(ParseError::ExpectedBraceClose);
        }
        let mut items = acc;
        let ghost acc0 = items@;
        match self.declaration(fuel - 1) {
            Ok(d) => {
                items.push(d);
                proof {
                    crate::stmt::lemma_stmts_view_push(acc0, items@[items@.len() - 1]);
                    assert(items@ =~= acc0.push(items@[items@.len() - 1]));
                }
                self.block_rest(Ghost(crate::stmt::stmts_view(items@)), items, fuel - 1)
            },
            Err(pe) => Err(pe),
        }
    }

    #[verifier::spinoff_prover]
    #[verifier::rlimit(100)]
    fn block(&mut self, fuel: u64) -> (r: Result<Stmt, ParseError>)
        ensures
            ({
                let (sr, sp) = spec_block(old(self)@.tokens, old(self)@.pos, fuel as nat);
                &&& final(self)@.tokens == old(self)@.tokens
                &&& final(self)@.pos == sp
                &&& match r {
                    Ok(st) => sr == Ok::<StmtV, ParseError>(st@),
                    Err(pe) => sr == Err::<StmtV, ParseError>(pe),
                }
            }),
        decreases fuel,
    {
        if fuel == 0 {
            return Err(ParseError::TooDeeplyNested);
        }
        proof {
            crate::stmt::lemma_stmts_view(Seq::<Stmt>::empty());
        }
        self.block_rest(Ghost(Seq::empty()), Vec::new(), fuel - 1)
    }

    #[verifier::spinoff_prover]
    #[verifier::rlimit(100)]
    fn if_stmt(&mut self, fuel: u64) -> (r: Result<Stmt, ParseError>)
        ensures
            ({
                let (sr, sp) = spec_if_stmt(old(self)@.tokens, old(self)@.pos, fuel as nat);
                &&& final(self)@.tokens == old(self)@.tokens
                &&& final(self)@.pos == sp
                &&& match r {
                    Ok(st) => sr == Ok::<StmtV, ParseError>(st@),
                    Err(pe) => sr == Err::<StmtV, ParseError>(pe),
                }
            }),
        decreases fuel,
    {
        if fuel == 0 {
            return Err(ParseError::TooDeeplyNested);
        }
        match self.assert_next(
            &TokenType::Punctuation(Punctuation::BracketOpen),
            ParseError::ExpectedParenOpenAfterIf,
        ) {
            Ok(_) => {},
            Err(pe) => {
                return Err(pe);
            },
        }
        let c = match self.expression(fuel - 1) {
            Ok(c) => c,
            Err(pe) => {
                return Err(pe);
            },
        };
        match self.assert_next(
            &TokenType::Punctuation(Punctuation::BracketClose),
            ParseError::ExpectedParenCloseAfterIfCond,
        ) {
            Ok(_) => {},
            Err(pe) => {
                return Err(pe);
            },
        }
        let t = match self.statement(fuel - 1) {
            Ok(t) => t,
            Err(pe) => {
                return Err(pe);
            },
        };
        if self.check(&TokenType::Keyword(Keyword::Else)) {
            self.advance();
            match self.statement(fuel - 1) {
                Ok(e) => Ok(Stmt::If(c, Box::new(t), Some(Box::new(e)))),
                Err(pe) => Err(pe),
            }
        } else {
            Ok(Stmt::If(c, Box::new(t), None))
        }
    }

    #[verifier::spinoff_prover]
    #[verifier::rlimit(100)]
    fn while_stmt(&mut self, fuel: u64) -> (r: Result<Stmt, ParseError>)
        ensures
            ({
                let (sr, sp) = spec_while_stmt(old(self)@.tokens, old(self)@.pos, fuel as nat);
                &&& final(self)@.tokens == old(self)@.tokens
                &&& final(self)@.pos == sp
                &&& match r {
                    Ok(st) => sr == Ok::<StmtV, ParseError>(st@),
                    Err(pe) => sr == Err::<StmtV, ParseError>(pe),
                }
            }),
        decreases fuel,
    {
        if fuel == 0 {
            return Err(ParseError::TooDeeplyNested);
        }
        match self.assert_next(
            &TokenType::Punctuation(Punctuation::BracketOpen),
            ParseError::ExpectedParenOpenBeforeWhile,
        ) {
            Ok(_) => {},
            Err(pe) => {
                return Err(pe);
            },
        }
        let c = match self.expression(fuel - 1) {
            Ok(c) => c,
            Err(pe) => {
                return Err(pe);
            },
        };
        match self.assert_next(
            &TokenType::Punctuation(Punctuation::BracketClose),
            ParseError::ExpectedParenCloseAfterWhile,
        ) {
            Ok(_) => {},
            Err(pe) => {
                return Err(pe);
            },
        }
        match self.statement(fuel - 1) {
            Ok(b) => Ok(Stmt::While(c, Box::new(b))),
            Err(pe) => Err(pe),
        }
    }

    #[verifier::rlimit(100)]
    #[verifier::spinoff_prover]
    #[verifier::rlimit(100)]
    fn for_stmt(&mut self, fuel: u64) -> (r: Result<Stmt, ParseError>)
        ensures
            ({
                let (sr, sp) = spec_for_stmt(old(self)@.tokens, old(self)@.pos, fuel as nat);
                &&& final(self)@.tokens == old(self)@.tokens
                &&& final(self)@.pos == sp
                &&& match r {
                    Ok(st) => sr == Ok::<StmtV, ParseError>(st@),
                    Err(pe) => sr == Err::<StmtV, ParseError>(pe),
                }
            }),
        decreases fuel,
    {
        if fuel == 0 {
            return Err(ParseError::TooDeeplyNested);
        }
        match self.assert_next(
            &TokenType::Punctuation(Punctuation::BracketOpen),
            ParseError::ExpectedParenOpenBeforeFor,
        ) {
            Ok(_) => {},
            Err(pe) => {
                return Err(pe);
            },
        }
        let init: Option<Box<Stmt>> = if self.check(
            &TokenType::Punctuation(Punctuation::Semicolon),
        ) {
            self.advance();
            None
        } else if self.check(&TokenType::Keyword(Keyword::Var)) {
            self.advance();
            match self.var_declaration(fuel - 1) {
                Ok(v) => Some(Box::new(v)),
                Err(pe) => {
                    return Err(pe);
                },
            }
        } else {
            match self.expr_stmt(fuel - 1) {
                Ok(e) => Some(Box::new(e)),
                Err(pe) => {
                    return Err(pe);
                },
            }
        };
        let cond: Option<Expr> = if self.check(&TokenType::Punctuation(Punctuation::Semicolon)) {
            None
        } else {
            match self.expression(fuel - 1) {
                Ok(c) => Some(c),
                Err(pe) => {
                    return Err(pe);
                },
            }
        };
        match self.assert_next(
            &TokenType::Punctuation(Punctuation::Semicolon),
            ParseError::ExpectedSemiAfterForCond,
        ) {
            Ok(_) => {},
            Err(pe) => {
                return Err(pe);
            },
        }
        let incr: Option<Expr> = if self.check(
            &TokenType::Punctuation(Punctuation::BracketClose),
        ) {
            None
        } else {
            match self.expression(fuel - 1) {
                Ok(e) => Some(e),
                Err(pe) => {
                    return Err(pe);
                },
            }
        };
        match self.assert_next(
            &TokenType::Punctuation(Punctuation::BracketClose),
            ParseError::ExpectedParenCloseAfterFor,
        ) {
            Ok(_) => {},
            Err(pe) => {
                return Err(pe);
            },
        }
        match self.statement(fuel - 1) {
            Ok(b) => Ok(Stmt::For(init, cond, incr, Box::new(b))),
            Err(pe) => Err(pe),
        }
    }

    #[verifier::spinoff_prover]
    #[verifier::rlimit(100)]
    fn return_stmt(&mut self, fuel: u64) -> (r: Result<Stmt, ParseError>)
        ensures
            ({
                let (sr, sp) = spec_return_stmt(old(self)@.tokens, old(self)@.pos, fuel as nat);
                &&& final(self)@.tokens == old(self)@.tokens
                &&& final(self)@.pos == sp
                &&& match r {
                    Ok(st) => sr == Ok::<StmtV, ParseError>(st@),
                    Err(pe) => sr == Err::<StmtV, ParseError>(pe),
                }
            }),
        decreases fuel,
    {
        if fuel == 0 {
            return Err(ParseError::TooDeeplyNested);
        }
        let v = if self.check(&TokenType::Punctuation(Punctuation::Semicolon)) {
            Expr::Literal(Literal::Null)
        } else {
            match self.expression(fuel - 1) {
                Ok(v) => v,
                Err(pe) => {
                    return Err(pe);
                },
            }
        };
        match self.assert_next(
            &TokenType::Punctuation(Punctuation::Semicolon),
            ParseError::ExpectedSemiAfterReturn,
        ) {
            Ok(_) => Ok(Stmt::Return(v)),
            Err(pe) => Err(pe),
        }
    }

    #[verifier::spinoff_prover]
    #[verifier::rlimit(100)]
    fn statement(&mut self, fuel: u64) -> (r: Result<Stmt, ParseError>)
        ensures
            ({
                let (sr, sp) = spec_statement(old(self)@.tokens, old(self)@.pos, fuel as nat);
                &&& final(self)@.tokens == old(self)@.tokens
                &&& final(self)@.pos == sp
                &&& match r {
                    Ok(st) => sr == Ok::<StmtV, ParseError>(st@),
                    Err(pe) => sr == Err::<StmtV, ParseError>(pe),
                }
            }),
        decreases fuel,
    {
        proof {
            reveal_with_fuel(spec_statement, 1);
        }
        if fuel == 0 {
            return Err(ParseError::TooDeeplyNested);
        }
        if self.check(&TokenType::Keyword(Keyword::If)) {
            self.advance();
            self.if_stmt(fuel - 1)
        } else if self.check(&TokenType::Keyword(Keyword::Print)) {
            self.advance();
            self.print_stmt(fuel - 1)
        } else if self.check(&TokenType::Keyword(Keyword::Return)) {
            self.advance();
            self.return_stmt(fuel - 1)
        } else if self.check(&TokenType::Keyword(Keyword::While)) {
            self.advance();
            self.while_stmt(fuel - 1)
        } else if self.check(&TokenType::Keyword(Keyword::For)) {
            self.advance();
            self.for_stmt(fuel - 1)
        } else if self.check(&TokenType::Punctuation(Punctuation::BracketCurlyOpen)) {
            self.advance();
            self.block(fuel - 1)
        } else {
            self.expr_stmt(fuel - 1)
        }
    }

    #[verifier::spinoff_prover]
    #[verifier::rlimit(100)]
    fn var_declaration(&mut self, fuel: u64) -> (r: Result<Stmt, ParseError>)
        ensures
            ({
                let (sr, sp) = spec_var_declaration(old(self)@.tokens, old(self)@.pos, fuel as nat);
                &&& final(self)@.tokens == old(self)@.tokens
                &&& final(self)@.pos == sp
                &&& match r {
                    Ok(st) => sr == Ok::<StmtV, ParseError>(st@),
                    Err(pe) => sr == Err::<StmtV, ParseError>(pe),
                }
            }),
        decreases fuel,
    {
        if fuel == 0 {
            return Err(ParseError::TooDeeplyNested);
        }
        let t = self.peek();
        match t {
            TokenType::Identifier(name) => {
                self.advance();
                let init: Option<Expr> = if self.check(&TokenType::Operator(Operator::Eq)) {
                    self.advance();
                    match self.expression(fuel - 1) {
                        Ok(e) => Some(e),
                        Err(pe) => {
                            return Err(pe);
                        },
                    }
                } else {
                    None
                };
                match self.assert_next(
                    &TokenType::Punctuation(Punctuation::Semicolon),
                    ParseError::ExpectedSemiAfterVarInit,
                ) {
                    Ok(_) => Ok(Stmt::Var(name, init)),
                    Err(pe) => Err(pe),
                }
            },
            _ => Err(ParseError::ExpectedVarName),
        }
    }

    #[verifier::spinoff_prover]
    #[verifier::rlimit(100)]
    fn fn_params(&mut self, Ghost(accv): Ghost<Seq<ExprV>>, acc: Vec<Expr>, fuel: u64) -> (r: Vec<
        Expr,
    >)
        requires
            accv == crate::expr::exprs_view(acc@),
        ensures
            ({
                let (sps, sp) = spec_fn_params(
                    old(self)@.tokens,
                    old(self)@.pos,
                    accv,
                    fuel as nat,
                );
                &&& final(self)@.tokens == old(self)@.tokens
                &&& final(self)@.pos == sp
                &&& crate::expr::exprs_view(r@) == sps
            }),
        decreases fuel,
    {
        if fuel == 0 {
            return acc;
        }
        let mut items = acc;
        let ghost acc0 = items@;
        let t = self.peek();
        match t {
            TokenType::Identifier(name) => {
                items.push(Expr::Variable(name));
                self.advance();
                proof {
                    crate::expr::lemma_exprs_view_push(acc0, items@[items@.len() - 1]);
                    assert(items@ =~= acc0.push(items@[items@.len() - 1]));
                }
            },
            _ => {},
        }
        if self.check(&TokenType::Punctuation(Punctuation::Comma)) {
            self.advance();
            self.fn_params(Ghost(crate::expr::exprs_view(items@)), items, fuel - 1)
        } else {
            items
        }
    }

    #[verifier::rlimit(100)]
    #[verifier::spinoff_prover]
    #[verifier::rlimit(100)]
    fn fn_declaration(&mut self, fuel: u64) -> (r: Result<Stmt, ParseError>)
        ensures
            ({
                let (sr, sp) = spec_fn_declaration(old(self)@.tokens, old(self)@.pos, fuel as nat);
                &&& final(self)@.tokens == old(self)@.tokens
                &&& final(self)@.pos == sp
                &&& match r {
                    Ok(st) => sr == Ok::<StmtV, ParseError>(st@),
                    Err(pe) => sr == Err::<StmtV, ParseError>(pe),
                }
            }),
        decreases fuel,
    {
        if fuel == 0 {
            return Err(ParseError::TooDeeplyNested);
        }
        let t = self.peek();
        let name = match t {
            TokenType::Identifier(name) => name,
            _ => {
                return Err(ParseError::ExpectedFnName);
            },
        };
        self.advance();
        match self.assert_next(
            &TokenType::Punctuation(Punctuation::BracketOpen),
            ParseError::ExpectedParenOpenAfterFnName,
        ) {
            Ok(_) => {},
            Err(pe) => {
                return Err(pe);
            },
        }
        proof {
            crate::expr::lemma_exprs_view(Seq::<Expr>::empty());
        }
        let params: Vec<Expr> = if self.check(
            &TokenType::Punctuation(Punctuation::BracketClose),
        ) {
            Vec::new()
        } else {
            self.fn_params(Ghost(Seq::empty()), Vec::new(), fuel - 1)
        };
        match self.assert_next(
            &TokenType::Punctuation(Punctuation::BracketClose),
            ParseError::ExpectedParenCloseAfterFnArgs,
        ) {
            Ok(_) => {},
            Err(pe) => {
                return Err(pe);
            },
        }
        if self.check(&TokenType::Punctuation(Punctuation::BracketCurlyOpen)) {
            self.advance();
            match self.block(fuel - 1) {
                Ok(b) => Ok(Stmt::Function(name, params, Box::new(b))),
                Err(pe) => Err(pe),
            }
        } else {
            Err(ParseError::ExpectedBlockStart)
        }
    }

    #[verifier::spinoff_prover]
    #[verifier::rlimit(100)]
    fn declaration(&mut self, fuel: u64) -> (r: Result<Stmt, ParseError>)
        ensures
            ({
                let (sr, sp) = spec_declaration(old(self)@.tokens, old(self)@.pos, fuel as nat);
                &&& final(self)@.tokens == old(self)@.tokens
                &&& final(self)@.pos == sp
                &&& match r {
                    Ok(st) => sr == Ok::<StmtV, ParseError>(st@),
                    Err(pe) => sr == Err::<StmtV, ParseError>(pe),
                }
            }),
        decreases fuel,
    {
        if fuel == 0 {
            return Err(ParseError::TooDeeplyNested);
        }
        if self.check(&TokenType::Keyword(Keyword::Var)) {
            self.advance();
            self.var_declaration(fuel - 1)
        } else if self.check(&TokenType::Keyword(Keyword::Function)) {
            self.advance();
            self.fn_declaration(fuel - 1)
        } else {
            self.statement(fuel - 1)
        }
    }

    fn sync_start_here(&self) -> (r: bool)
        ensures
            r == spec_sync_start(cur(self@.tokens, self@.pos)),
    {
        self.check(&TokenType::Keyword(Keyword::Class)) || self.check(
            &TokenType::Keyword(Keyword::Function),
        ) || self.check(&TokenType::Keyword(Keyword::Var)) || self.check(
            &TokenType::Keyword(Keyword::For),
        ) || self.check(&TokenType::Keyword(Keyword::If)) || self.check(
            &TokenType::Keyword(Keyword::While),
        ) || self.check(&TokenType::Keyword(Keyword::Print)) || self.check(
            &TokenType::Keyword(Keyword::Return),
        )
    }

    fn prev_is_semicolon(&self) -> (r: bool)
        ensures
            r == (cur(self@.tokens, self@.pos - 1) == TokenTypeV::Punctuation(
                Punctuation::Semicolon,
            )),
    {
        if self.pos >= 1 && self.pos - 1 < self.tokens.len() {
            proof {
                assert(self@.tokens[self.pos as int - 1] == self.tokens@[self.pos as int
                    - 1]@.token_type);
            }
            match self.tokens[self.pos - 1].get() {
                TokenType::Punctuation(Punctuation::Semicolon) => true,
                _ => false,
            }
        } else {
            false
        }
    }

    /// Error recovery: step past the offending token, then skip to the next
    /// statement boundary.
    #[verifier::rlimit(100)]
    #[verifier::spinoff_prover]
    #[verifier::rlimit(100)]
    fn sync(&mut self, fuel: u64)
        ensures
            final(self)@.tokens == old(self)@.tokens,
            final(self)@.pos == spec_sync(old(self)@.tokens, old(self)@.pos, fuel as nat),
    {
        self.advance();
        let mut f: u64 = fuel;
        loop
            invariant
                self@.tokens == old(self)@.tokens,
                spec_sync(old(self)@.tokens, old(self)@.pos, fuel as nat) == spec_sync_rest(
                    old(self)@.tokens,
                    self@.pos,
                    f as nat,
                ),
            decreases f,
        {
            if f == 0 {
                return ;
            }
            if self.is_at_end() {
                return ;
            }
            if self.prev_is_semicolon() {
                return ;
            }
            if self.sync_start_here() {
                return ;
            }
            self.advance();
            f = f - 1;
        }
    }

    /// Parses the whole program: the statements in order, with the errors
    /// collected while recovering from failed declarations.
    #[verifier::rlimit(100)]
    #[verifier::spinoff_prover]
    #[verifier::rlimit(100)]
    pub fn parse(&mut self) -> (r: (Vec<Stmt>, Vec<ParseError>))
        ensures
            ({
                let (ss, es) = spec_parse(
                    old(self)@.tokens,
                    old(self)@.pos,
                    Seq::empty(),
                    Seq::empty(),
                    PARSE_FUEL as nat,
                );
                crate::stmt::stmts_view(r.0@) == ss && r.1@ == es
            }),
    {
        let mut stmts: Vec<Stmt> = Vec::new();
        let mut errs: Vec<ParseError> = Vec::new();
        let mut f: u64 = PARSE_FUEL;
        proof {
            crate::stmt::lemma_stmts_view(Seq::<Stmt>::empty());
        }
        loop
            invariant
                self@.tokens == old(self)@.tokens,
                spec_parse(
                    old(self)@.tokens,
                    old(self)@.pos,
                    Seq::empty(),
                    Seq::empty(),
                    PARSE_FUEL as nat,
                ) == spec_parse(
                    old(self)@.tokens,
                    self@.pos,
                    crate::stmt::stmts_view(stmts@),
                    errs@,
                    f as nat,
                ),
            decreases f,
        {
            if f == 0 {
                let ghost errs0 = errs@;
                errs.push(ParseError::TooDeeplyNested);
                proof {
                    assert(errs@ =~= errs0 + seq![ParseError::TooDeeplyNested]);
                }
                return (stmts, errs);
            }
            if self.is_at_end() {
                return (stmts, errs);
            }
            let ghost stmts0 = stmts@;
            let ghost errs0 = errs@;
            match self.declaration(f - 1) {
                Ok(d) => {
                    stmts.push(d);
                    proof {
                        crate::stmt::lemma_stmts_view_push(stmts0, stmts@[stmts@.len() - 1]);
                        assert(stmts@ =~= stmts0.push(stmts@[stmts@.len() - 1]));
                    }
                },
                Err(pe) => {
                    self.sync(f - 1);
                    errs.push(pe);
                    proof {
                        assert(errs@ =~= errs0.push(pe));
                        assert(errs@ =~= errs0 + seq![pe]);
                    }
                },
            }
            f = f - 1;
        }
    }
}


} // verus!
