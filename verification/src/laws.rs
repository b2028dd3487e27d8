//! The language's stated laws, proved against the spec-level lexer, parser
//! and evaluator that the executable code is verified to implement.
use vstd::prelude::*;

use crate::callables::ValueV;
use crate::callables::spec_truthy;
use crate::expr::ExprV;
use crate::interp::InterpV;
use crate::interp::RuntimeErrorV;
use crate::interp::spec_eval_expr;
use crate::interp::spec_unary_value;
use crate::parser::PARSE_FUEL;
use crate::parser::ParseError;
use crate::parser::spec_expression;
use crate::parser::spec_parse;
use crate::parser::spec_statement;
use crate::stmt::StmtV;
use crate::token_type::LiteralV;
use crate::token_type::Operator;
use crate::token_type::Punctuation;
use crate::token_type::TokenTypeV;

verus! {

/// Double logical negation yields truthiness: `!v` never fails, and `!!v`
/// is the boolean of the value's truthiness, for every value.
pub proof fn lemma_double_not(v: ValueV)
    ensures
        spec_unary_value(Operator::Not, v) == Ok::<ValueV, RuntimeErrorV>(
            ValueV::Bool(!spec_truthy(v)),
        ),
        spec_unary_value(Operator::Not, ValueV::Bool(!spec_truthy(v))) == Ok::<
            ValueV,
            RuntimeErrorV,
        >(ValueV::Bool(spec_truthy(v))),
{
}

/// Double logical negation through the evaluator: wherever an expression
/// evaluates to a value, `!!` of that expression evaluates, in the same
/// state, to the boolean of the value's truthiness.
pub proof fn lemma_double_not_eval(st: InterpV, e: ExprV, fuel: nat)
    requires
        fuel >= 2,
    ensures
        ({
            let (st2, r) = spec_eval_expr(st, e, (fuel - 2) as nat);
            r matches Ok(v) ==> spec_eval_expr(
                st,
                ExprV::Unary(Operator::Not, Box::new(ExprV::Unary(Operator::Not, Box::new(e)))),
                fuel,
            ) == (st2, Ok::<ValueV, RuntimeErrorV>(ValueV::Bool(spec_truthy(v))))
        }),
{
    reveal_with_fuel(spec_eval_expr, 3);
}

/// Short-circuit of `&&`: where the left operand evaluates to a falsy
/// value, the conjunction's outcome is the left value and the state the
/// left operand produced — whatever expression stands on the right.
pub proof fn lemma_short_circuit(st: InterpV, l: ExprV, r1: ExprV, r2: ExprV, fuel: nat)
    requires
        fuel >= 1,
        ({
            let (st1, lr) = spec_eval_expr(st, l, (fuel - 1) as nat);
            lr matches Ok(lv) && !spec_truthy(lv)
        }),
    ensures
        spec_eval_expr(st, ExprV::Logical(Box::new(l), Operator::And, Box::new(r1)), fuel)
            == spec_eval_expr(st, ExprV::Logical(Box::new(l), Operator::And, Box::new(r2)), fuel),
        ({
            let (st1, lr) = spec_eval_expr(st, l, (fuel - 1) as nat);
            spec_eval_expr(st, ExprV::Logical(Box::new(l), Operator::And, Box::new(r1)), fuel) == (
                st1,
                lr,
            )
        }),
{
}

/// The token stream of `a op b op c ;` for number literals.
pub open spec fn spec_chain_tokens(a: u64, b: u64, c: u64, op: Operator) -> Seq<TokenTypeV> {
    seq![
        TokenTypeV::Literal(LiteralV::Num(a)),
        TokenTypeV::Operator(op),
        TokenTypeV::Literal(LiteralV::Num(b)),
        TokenTypeV::Operator(op),
        TokenTypeV::Literal(LiteralV::Num(c)),
        TokenTypeV::Punctuation(Punctuation::Semicolon),
        TokenTypeV::EndOfFile,
    ]
}

/// The left-leaning tree `Binary(Binary(a, op, b), op, c)` over literals.
pub open spec fn spec_left_tree(a: u64, b: u64, c: u64, op: Operator) -> ExprV {
    ExprV::Binary(
        Box::new(
            ExprV::Binary(
                Box::new(ExprV::Literal(LiteralV::Num(a))),
                op,
                Box::new(ExprV::Literal(LiteralV::Num(b))),
            ),
        ),
        op,
        Box::new(ExprV::Literal(LiteralV::Num(c))),
    )
}

/// A number literal parses at the unary level to itself, consuming one
/// token, wherever no call follows it.
proof fn lemma_unary_lit(ts: Seq<TokenTypeV>, i: int, n: u64, fuel: nat)
    requires
        fuel >= 4,
        0 <= i < ts.len(),
        crate::parser::cur(ts, i) == TokenTypeV::Literal(LiteralV::Num(n)),
        crate::parser::cur(ts, i + 1) != TokenTypeV::Punctuation(Punctuation::BracketOpen),
    ensures
        crate::parser::spec_unary(ts, i, fuel) == (
            Ok::<ExprV, ParseError>(ExprV::Literal(LiteralV::Num(n))),
            i + 1,
        ),
{
    assert(crate::parser::spec_primary(ts, i, (fuel - 2) as nat) == (
        Ok::<ExprV, ParseError>(ExprV::Literal(LiteralV::Num(n))),
        i + 1,
    ));
    assert(crate::parser::spec_call_rest(
        ts,
        ExprV::Literal(LiteralV::Num(n)),
        i + 1,
        (fuel - 2) as nat,
    ) == (Ok::<ExprV, ParseError>(ExprV::Literal(LiteralV::Num(n))), i + 1));
    assert(crate::parser::spec_call_level(ts, i, (fuel - 1) as nat) == (
        Ok::<ExprV, ParseError>(ExprV::Literal(LiteralV::Num(n))),
        i + 1,
    ));
}

/// A number literal parses at the term level to itself wherever neither a
/// factor nor a term operator follows it.
proof fn lemma_term_lit(ts: Seq<TokenTypeV>, i: int, n: u64, fuel: nat)
    requires
        fuel >= 8,
        0 <= i < ts.len(),
        crate::parser::cur(ts, i) == TokenTypeV::Literal(LiteralV::Num(n)),
        crate::parser::cur(ts, i + 1) != TokenTypeV::Punctuation(Punctuation::BracketOpen),
        !crate::parser::is_factor_op(crate::parser::cur(ts, i + 1)),
        !crate::parser::is_term_op(crate::parser::cur(ts, i + 1)),
    ensures
        crate::parser::spec_term(ts, i, fuel) == (
            Ok::<ExprV, ParseError>(ExprV::Literal(LiteralV::Num(n))),
            i + 1,
        ),
{
    lemma_unary_lit(ts, i, n, (fuel - 2) as nat);
    assert(crate::parser::spec_factor(ts, i, (fuel - 1) as nat) == (
        Ok::<ExprV, ParseError>(ExprV::Literal(LiteralV::Num(n))),
        i + 1,
    ));
}

/// A number literal parses at the comparison level to itself wherever only
/// an equality operator or a semicolon follows it.
proof fn lemma_comparison_lit(ts: Seq<TokenTypeV>, i: int, n: u64, fuel: nat)
    requires
        fuel >= 10,
        0 <= i < ts.len(),
        crate::parser::cur(ts, i) == TokenTypeV::Literal(LiteralV::Num(n)),
        crate::parser::cur(ts, i + 1) == TokenTypeV::Operator(Operator::EqEq)
            || crate::parser::cur(ts, i + 1) == TokenTypeV::Punctuation(Punctuation::Semicolon),
    ensures
        crate::parser::spec_comparison(ts, i, fuel) == (
            Ok::<ExprV, ParseError>(ExprV::Literal(LiteralV::Num(n))),
            i + 1,
        ),
{
    lemma_term_lit(ts, i, n, (fuel - 1) as nat);
}

/// The chain of two `*` or `/` parses at the expression level to the
/// left-leaning tree.
#[verifier::spinoff_prover]
#[verifier::rlimit(100)]
proof fn lemma_chain_factor(a: u64, b: u64, c: u64, op: Operator, fuel: nat)
    requires
        op == Operator::Mul || op == Operator::Div,
        fuel >= 30,
    ensures
        spec_expression(spec_chain_tokens(a, b, c, op), 0, fuel) == (
            Ok::<ExprV, ParseError>(spec_left_tree(a, b, c, op)),
            5int,
        ),
{
    reveal_with_fuel(spec_expression, 2);
    reveal_with_fuel(crate::parser::spec_factor_rest, 4);
    let ts = spec_chain_tokens(a, b, c, op);
    let tree = spec_left_tree(a, b, c, op);
    lemma_unary_lit(ts, 0, a, (fuel - 8) as nat);
    lemma_unary_lit(ts, 2, b, (fuel - 9) as nat);
    lemma_unary_lit(ts, 4, c, (fuel - 10) as nat);
    assert(crate::parser::spec_factor_rest(
        ts,
        ExprV::Literal(LiteralV::Num(a)),
        1,
        (fuel - 8) as nat,
    ) == (Ok::<ExprV, ParseError>(tree), 5int));
    assert(crate::parser::spec_factor(ts, 0, (fuel - 7) as nat) == (
        Ok::<ExprV, ParseError>(tree),
        5int,
    ));
    assert(crate::parser::spec_term(ts, 0, (fuel - 6) as nat) == (
        Ok::<ExprV, ParseError>(tree),
        5int,
    ));
    assert(crate::parser::spec_comparison(ts, 0, (fuel - 5) as nat) == (
        Ok::<ExprV, ParseError>(tree),
        5int,
    ));
    assert(crate::parser::spec_equality(ts, 0, (fuel - 4) as nat) == (
        Ok::<ExprV, ParseError>(tree),
        5int,
    ));
    assert(crate::parser::spec_and(ts, 0, (fuel - 3) as nat) == (
        Ok::<ExprV, ParseError>(tree),
        5int,
    ));
    assert(crate::parser::spec_or(ts, 0, (fuel - 2) as nat) == (
        Ok::<ExprV, ParseError>(tree),
        5int,
    ));
    assert(crate::parser::spec_assignment(ts, 0, (fuel - 1) as nat) == (
        Ok::<ExprV, ParseError>(tree),
        5int,
    ));
}

/// The chain of two `+` or `-` parses at the expression level to the
/// left-leaning tree.
#[verifier::spinoff_prover]
#[verifier::rlimit(100)]
proof fn lemma_chain_term(a: u64, b: u64, c: u64, op: Operator, fuel: nat)
    requires
        op == Operator::Add || op == Operator::Sub,
        fuel >= 30,
    ensures
        spec_expression(spec_chain_tokens(a, b, c, op), 0, fuel) == (
            Ok::<ExprV, ParseError>(spec_left_tree(a, b, c, op)),
            5int,
        ),
{
    reveal_with_fuel(spec_expression, 2);
    reveal_with_fuel(crate::parser::spec_term_rest, 4);
    let ts = spec_chain_tokens(a, b, c, op);
    let tree = spec_left_tree(a, b, c, op);
    lemma_unary_lit(ts, 0, a, (fuel - 8) as nat);
    lemma_unary_lit(ts, 2, b, (fuel - 9) as nat);
    lemma_unary_lit(ts, 4, c, (fuel - 10) as nat);
    assert(crate::parser::spec_factor(ts, 0, (fuel - 7) as nat) == (
        Ok::<ExprV, ParseError>(ExprV::Literal(LiteralV::Num(a))),
        1int,
    ));
    assert(crate::parser::spec_factor(ts, 2, (fuel - 8) as nat) == (
        Ok::<ExprV, ParseError>(ExprV::Literal(LiteralV::Num(b))),
        3int,
    ));
    assert(crate::parser::spec_factor(ts, 4, (fuel - 9) as nat) == (
        Ok::<ExprV, ParseError>(ExprV::Literal(LiteralV::Num(c))),
        5int,
    ));
    assert(crate::parser::spec_term_rest(
        ts,
        ExprV::Literal(LiteralV::Num(a)),
        1,
        (fuel - 7) as nat,
    ) == (Ok::<ExprV, ParseError>(tree), 5int));
    assert(crate::parser::spec_term(ts, 0, (fuel - 6) as nat) == (
        Ok::<ExprV, ParseError>(tree),
        5int,
    ));
    assert(crate::parser::spec_comparison(ts, 0, (fuel - 5) as nat) == (
        Ok::<ExprV, ParseError>(tree),
        5int,
    ));
    assert(crate::parser::spec_equality(ts, 0, (fuel - 4) as nat) == (
        Ok::<ExprV, ParseError>(tree),
        5int,
    ));
    assert(crate::parser::spec_and(ts, 0, (fuel - 3) as nat) == (
        Ok::<ExprV, ParseError>(tree),
        5int,
    ));
    assert(crate::parser::spec_or(ts, 0, (fuel - 2) as nat) == (
        Ok::<ExprV, ParseError>(tree),
        5int,
    ));
    assert(crate::parser::spec_assignment(ts, 0, (fuel - 1) as nat) == (
        Ok::<ExprV, ParseError>(tree),
        5int,
    ));
}

/// The chain of two `<` or `>` parses at the expression level to the
/// left-leaning tree.
#[verifier::spinoff_prover]
#[verifier::rlimit(100)]
proof fn lemma_chain_comparison(a: u64, b: u64, c: u64, op: Operator, fuel: nat)
    requires
        op == Operator::Lt || op == Operator::Gt,
        fuel >= 30,
    ensures
        spec_expression(spec_chain_tokens(a, b, c, op), 0, fuel) == (
            Ok::<ExprV, ParseError>(spec_left_tree(a, b, c, op)),
            5int,
        ),
{
    reveal_with_fuel(spec_expression, 2);
    reveal_with_fuel(crate::parser::spec_comparison_rest, 4);
    let ts = spec_chain_tokens(a, b, c, op);
    let tree = spec_left_tree(a, b, c, op);
    lemma_term_lit(ts, 0, a, (fuel - 6) as nat);
    lemma_term_lit(ts, 2, b, (fuel - 7) as nat);
    lemma_term_lit(ts, 4, c, (fuel - 8) as nat);
    assert(crate::parser::spec_comparison_rest(
        ts,
        ExprV::Literal(LiteralV::Num(a)),
        1,
        (fuel - 6) as nat,
    ) == (Ok::<ExprV, ParseError>(tree), 5int));
    assert(crate::parser::spec_comparison(ts, 0, (fuel - 5) as nat) == (
        Ok::<ExprV, ParseError>(tree),
        5int,
    ));
    assert(crate::parser::spec_equality(ts, 0, (fuel - 4) as nat) == (
        Ok::<ExprV, ParseError>(tree),
        5int,
    ));
    assert(crate::parser::spec_and(ts, 0, (fuel - 3) as nat) == (
        Ok::<ExprV, ParseError>(tree),
        5int,
    ));
    assert(crate::parser::spec_or(ts, 0, (fuel - 2) as nat) == (
        Ok::<ExprV, ParseError>(tree),
        5int,
    ));
    assert(crate::parser::spec_assignment(ts, 0, (fuel - 1) as nat) == (
        Ok::<ExprV, ParseError>(tree),
        5int,
    ));
}

/// The chain of two `==` parses at the expression level to the left-leaning
/// tree.
#[verifier::spinoff_prover]
#[verifier::rlimit(100)]
proof fn lemma_chain_equality(a: u64, b: u64, c: u64, fuel: nat)
    requires
        fuel >= 30,
    ensures
        spec_expression(spec_chain_tokens(a, b, c, Operator::EqEq), 0, fuel) == (
            Ok::<ExprV, ParseError>(spec_left_tree(a, b, c, Operator::EqEq)),
            5int,
        ),
{
    reveal_with_fuel(spec_expression, 2);
    reveal_with_fuel(crate::parser::spec_equality_rest, 4);
    let ts = spec_chain_tokens(a, b, c, Operator::EqEq);
    let tree = spec_left_tree(a, b, c, Operator::EqEq);
    lemma_comparison_lit(ts, 0, a, (fuel - 5) as nat);
    lemma_comparison_lit(ts, 2, b, (fuel - 6) as nat);
    lemma_comparison_lit(ts, 4, c, (fuel - 7) as nat);
    assert(crate::parser::spec_equality_rest(
        ts,
        ExprV::Literal(LiteralV::Num(a)),
        1,
        (fuel - 5) as nat,
    ) == (Ok::<ExprV, ParseError>(tree), 5int));
    assert(crate::parser::spec_equality(ts, 0, (fuel - 4) as nat) == (
        Ok::<ExprV, ParseError>(tree),
        5int,
    ));
    assert(crate::parser::spec_and(ts, 0, (fuel - 3) as nat) == (
        Ok::<ExprV, ParseError>(tree),
        5int,
    ));
    assert(crate::parser::spec_or(ts, 0, (fuel - 2) as nat) == (
        Ok::<ExprV, ParseError>(tree),
        5int,
    ));
    assert(crate::parser::spec_assignment(ts, 0, (fuel - 1) as nat) == (
        Ok::<ExprV, ParseError>(tree),
        5int,
    ));
}

/// Left associativity: for any number literals `a op b op c` with the same
/// arithmetic, comparison or equality operator twice, the parsed program is
/// the single expression statement `Binary(Binary(a, op, b), op, c)`.
#[verifier::spinoff_prover]
#[verifier::rlimit(100)]
pub proof fn lemma_left_associativity(a: u64, b: u64, c: u64, op: Operator)
    requires
        op == Operator::Add || op == Operator::Sub || op == Operator::Mul || op == Operator::Div
            || op == Operator::Lt || op == Operator::Gt || op == Operator::EqEq,
    ensures
        spec_parse(
            spec_chain_tokens(a, b, c, op),
            0,
            Seq::empty(),
            Seq::empty(),
            PARSE_FUEL as nat,
        ) == (
            seq![StmtV::Expression(spec_left_tree(a, b, c, op))],
            Seq::<ParseError>::empty(),
        ),
{
    let ts = spec_chain_tokens(a, b, c, op);
    let efuel = (PARSE_FUEL - 4) as nat;
    if op == Operator::Mul || op == Operator::Div {
        lemma_chain_factor(a, b, c, op, efuel);
    } else if op == Operator::Add || op == Operator::Sub {
        lemma_chain_term(a, b, c, op, efuel);
    } else if op == Operator::Lt || op == Operator::Gt {
        lemma_chain_comparison(a, b, c, op, efuel);
    } else {
        lemma_chain_equality(a, b, c, efuel);
    }
    reveal_with_fuel(spec_statement, 2);
    reveal_with_fuel(spec_parse, 3);
    assert(spec_parse(ts, 0, Seq::empty(), Seq::empty(), PARSE_FUEL as nat) == (
        Seq::<StmtV>::empty() + seq![StmtV::Expression(spec_left_tree(a, b, c, op))],
        Seq::<ParseError>::empty(),
    ));
    assert(Seq::<StmtV>::empty() + seq![StmtV::Expression(spec_left_tree(a, b, c, op))] =~= seq![
        StmtV::Expression(spec_left_tree(a, b, c, op)),
    ]);
}

/// The mixed chain parses at the expression level with `*` binding tighter.
#[verifier::spinoff_prover]
#[verifier::rlimit(100)]
proof fn lemma_precedence_expr(a: u64, b: u64, c: u64, fuel: nat)
    requires
        fuel >= 30,
    ensures
        spec_expression(
            seq![
                TokenTypeV::Literal(LiteralV::Num(a)),
                TokenTypeV::Operator(Operator::Add),
                TokenTypeV::Literal(LiteralV::Num(b)),
                TokenTypeV::Operator(Operator::Mul),
                TokenTypeV::Literal(LiteralV::Num(c)),
                TokenTypeV::Punctuation(Punctuation::Semicolon),
                TokenTypeV::EndOfFile,
            ],
            0,
            fuel,
        ) == (
            Ok::<ExprV, ParseError>(
                ExprV::Binary(
                    Box::new(ExprV::Literal(LiteralV::Num(a))),
                    Operator::Add,
                    Box::new(
                        ExprV::Binary(
                            Box::new(ExprV::Literal(LiteralV::Num(b))),
                            Operator::Mul,
                            Box::new(ExprV::Literal(LiteralV::Num(c))),
                        ),
                    ),
                ),
            ),
            5int,
        ),
{
    reveal_with_fuel(spec_expression, 2);
    reveal_with_fuel(crate::parser::spec_term_rest, 3);
    reveal_with_fuel(crate::parser::spec_factor_rest, 4);
    let ts = seq![
        TokenTypeV::Literal(LiteralV::Num(a)),
        TokenTypeV::Operator(Operator::Add),
        TokenTypeV::Literal(LiteralV::Num(b)),
        TokenTypeV::Operator(Operator::Mul),
        TokenTypeV::Literal(LiteralV::Num(c)),
        TokenTypeV::Punctuation(Punctuation::Semicolon),
        TokenTypeV::EndOfFile,
    ];
    let bc = ExprV::Binary(
        Box::new(ExprV::Literal(LiteralV::Num(b))),
        Operator::Mul,
        Box::new(ExprV::Literal(LiteralV::Num(c))),
    );
    let tree = ExprV::Binary(Box::new(ExprV::Literal(LiteralV::Num(a))), Operator::Add, Box::new(bc));
    lemma_unary_lit(ts, 0, a, (fuel - 8) as nat);
    lemma_unary_lit(ts, 2, b, (fuel - 9) as nat);
    lemma_unary_lit(ts, 4, c, (fuel - 10) as nat);
    assert(crate::parser::spec_factor(ts, 0, (fuel - 7) as nat) == (
        Ok::<ExprV, ParseError>(ExprV::Literal(LiteralV::Num(a))),
        1int,
    ));
    assert(crate::parser::spec_factor_rest(
        ts,
        ExprV::Literal(LiteralV::Num(b)),
        3,
        (fuel - 9) as nat,
    ) == (Ok::<ExprV, ParseError>(bc), 5int));
    assert(crate::parser::spec_factor(ts, 2, (fuel - 8) as nat) == (
        Ok::<ExprV, ParseError>(bc),
        5int,
    ));
    assert(crate::parser::spec_term_rest(
        ts,
        ExprV::Literal(LiteralV::Num(a)),
        1,
        (fuel - 7) as nat,
    ) == (Ok::<ExprV, ParseError>(tree), 5int));
    assert(crate::parser::spec_term(ts, 0, (fuel - 6) as nat) == (
        Ok::<ExprV, ParseError>(tree),
        5int,
    ));
    assert(crate::parser::spec_comparison(ts, 0, (fuel - 5) as nat) == (
        Ok::<ExprV, ParseError>(tree),
        5int,
    ));
    assert(crate::parser::spec_equality(ts, 0, (fuel - 4) as nat) == (
        Ok::<ExprV, ParseError>(tree),
        5int,
    ));
    assert(crate::parser::spec_and(ts, 0, (fuel - 3) as nat) == (
        Ok::<ExprV, ParseError>(tree),
        5int,
    ));
    assert(crate::parser::spec_or(ts, 0, (fuel - 2) as nat) == (
        Ok::<ExprV, ParseError>(tree),
        5int,
    ));
    assert(crate::parser::spec_assignment(ts, 0, (fuel - 1) as nat) == (
        Ok::<ExprV, ParseError>(tree),
        5int,
    ));
}

/// Precedence: for any number literals, `a + b * c ;` parses to the single
/// expression statement `Binary(a, +, Binary(b, *, c))`.
#[verifier::spinoff_prover]
#[verifier::rlimit(100)]
pub proof fn lemma_precedence(a: u64, b: u64, c: u64)
    ensures
        spec_parse(
            seq![
                TokenTypeV::Literal(LiteralV::Num(a)),
                TokenTypeV::Operator(Operator::Add),
                TokenTypeV::Literal(LiteralV::Num(b)),
                TokenTypeV::Operator(Operator::Mul),
                TokenTypeV::Literal(LiteralV::Num(c)),
                TokenTypeV::Punctuation(Punctuation::Semicolon),
                TokenTypeV::EndOfFile,
            ],
            0,
            Seq::empty(),
            Seq::empty(),
            PARSE_FUEL as nat,
        ) == (
            seq![
                StmtV::Expression(
                    ExprV::Binary(
                        Box::new(ExprV::Literal(LiteralV::Num(a))),
                        Operator::Add,
                        Box::new(
                            ExprV::Binary(
                                Box::new(ExprV::Literal(LiteralV::Num(b))),
                                Operator::Mul,
                                Box::new(ExprV::Literal(LiteralV::Num(c))),
                            ),
                        ),
                    ),
                ),
            ],
            Seq::<ParseError>::empty(),
        ),
{
    let tree = ExprV::Binary(
        Box::new(ExprV::Literal(LiteralV::Num(a))),
        Operator::Add,
        Box::new(
            ExprV::Binary(
                Box::new(ExprV::Literal(LiteralV::Num(b))),
                Operator::Mul,
                Box::new(ExprV::Literal(LiteralV::Num(c))),
            ),
        ),
    );
    lemma_precedence_expr(a, b, c, (PARSE_FUEL - 4) as nat);
    reveal_with_fuel(spec_statement, 2);
    reveal_with_fuel(spec_parse, 3);
    assert(Seq::<StmtV>::empty() + seq![StmtV::Expression(tree)] =~= seq![
        StmtV::Expression(tree),
    ]);
}

} // verus!
