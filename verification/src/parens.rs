//! The parenthesiser: a read-only rendering of an expression as a fully
//! parenthesised prefix form, for debugging and the syntax-tree dump.
use vstd::prelude::*;

use crate::callables::spec_display;
use crate::expr::Expr;
use crate::expr::ExprV;
use crate::expr::expr_view;
use crate::expr::exprs_view;
use crate::expr::lemma_exprs_view;
use crate::interp::spec_lit_value;
use crate::numbers::number_text_bytes;
use crate::token_type::LiteralV;
use crate::token_type::Operator;
use crate::token_type::spec_operator_bytes;

verus! {

/// The rendered arguments after the first, each preceded by a comma.
pub open spec fn spec_parens_args_rest(args: Seq<ExprV>) -> Seq<u8>
    decreases args,
{
    if args.len() == 0 {
        Seq::empty()
    } else {
        seq![44u8, 32u8] + spec_parenthesize(args[0]) + spec_parens_args_rest(args.skip(1))
    }
}

/// The rendered argument list, comma separated.
pub open spec fn spec_parens_args(args: Seq<ExprV>) -> Seq<u8>
    decreases args,
{
    if args.len() == 0 {
        Seq::empty()
    } else {
        spec_parenthesize(args[0]) + spec_parens_args_rest(args.skip(1))
    }
}

/// The fully parenthesised prefix form of an expression: operators lead
/// their operands, groupings are marked, literals show their display form,
/// names and assignments are tagged, and a call lists its arguments.
pub open spec fn spec_parenthesize(e: ExprV) -> Seq<u8>
    decreases e,
{
    match e {
        ExprV::Binary(l, op, r) => seq![40u8] + spec_operator_bytes(op) + seq![32u8]
            + spec_parenthesize(*l) + seq![32u8] + spec_parenthesize(*r) + seq![41u8],
        ExprV::Grouping(inner) => seq![40u8, 103u8, 114u8, 111u8, 117u8, 112u8, 32u8]
            + spec_parenthesize(*inner) + seq![41u8],
        ExprV::Literal(l) => spec_display(spec_lit_value(l)),
        ExprV::Unary(op, r) => seq![40u8] + spec_operator_bytes(op) + seq![32u8]
            + spec_parenthesize(*r) + seq![41u8],
        ExprV::Variable(name) => seq![40u8, 118u8, 97u8, 114u8, 32u8] + name + seq![41u8],
        ExprV::Assign(name, v) => seq![40u8, 97u8, 115u8, 115u8, 105u8, 103u8, 110u8, 32u8] + name
            + seq![32u8] + spec_parenthesize(*v) + seq![41u8],
        ExprV::Logical(l, op, r) => seq![40u8] + spec_operator_bytes(op) + seq![32u8]
            + spec_parenthesize(*l) + seq![32u8] + spec_parenthesize(*r) + seq![41u8],
        ExprV::Call(callee, args) => seq![40u8] + spec_parenthesize(*callee) + seq![
            44u8,
            32u8,
            91u8,
        ] + spec_parens_args(args) + seq![93u8, 41u8],
    }
}

/// Rendering one more argument appends a comma and its rendering.
proof fn lemma_parens_args_rest_snoc(args: Seq<ExprV>, n: int)
    requires
        0 <= n < args.len(),
    ensures
        spec_parens_args_rest(args.take(n + 1)) == spec_parens_args_rest(args.take(n)) + seq![
            44u8,
            32u8,
        ] + spec_parenthesize(args[n]),
    decreases n,
{
    if n == 0 {
        assert(args.take(1).skip(1) =~= Seq::<ExprV>::empty());
        assert(args.take(0) =~= Seq::<ExprV>::empty());
        assert(args.take(1)[0] == args[0]);
        assert(spec_parens_args_rest(args.take(1)) =~= spec_parens_args_rest(args.take(0)) + seq![
            44u8,
            32u8,
        ] + spec_parenthesize(args[0]));
    } else {
        lemma_parens_args_rest_snoc(args.skip(1), n - 1);
        assert(args.take(n + 1).skip(1) =~= args.skip(1).take(n));
        assert(args.take(n).skip(1) =~= args.skip(1).take(n - 1));
        assert(args.take(n + 1)[0] == args[0]);
        assert(args.take(n)[0] == args[0]);
        assert(spec_parens_args_rest(args.take(n + 1)) =~= spec_parens_args_rest(args.take(n))
            + seq![44u8, 32u8] + spec_parenthesize(args[n]));
    }
}

/// The fully parenthesised prefix form of an expression.
pub fn parenthesize(e: &Expr) -> (r: Vec<u8>)
    ensures
        r@ == spec_parenthesize(e@),
    decreases *e,
{
    match e {
        Expr::Binary(l, op, rr) => {
            let mut out: Vec<u8> = Vec::new();
            out.push(40);
            let ob = op.to_bytes();
            crate::callables::push_all(&mut out, ob.as_slice());
            out.push(32);
            let lb = parenthesize(l);
            crate::callables::push_all(&mut out, lb.as_slice());
            out.push(32);
            let rb = parenthesize(rr);
            crate::callables::push_all(&mut out, rb.as_slice());
            out.push(41);
            proof {
                assert(out@ =~= spec_parenthesize(e@));
            }
            out
        },
        Expr::Grouping(inner) => {
            let mut out: Vec<u8> = Vec::new();
            out.push(40);
            out.push(103);
            out.push(114);
            out.push(111);
            out.push(117);
            out.push(112);
            out.push(32);
            let ib = parenthesize(inner);
            crate::callables::push_all(&mut out, ib.as_slice());
            out.push(41);
            proof {
                assert(out@ =~= spec_parenthesize(e@));
            }
            out
        },
        Expr::Literal(l) => {
            let v = match l {
                crate::token_type::Literal::Number(b) => crate::callables::Value::Number(*b),
                crate::token_type::Literal::String(s) => crate::callables::Value::String(
                    crate::token_type::bytes_clone(s),
                ),
                crate::token_type::Literal::Boolean(b) => crate::callables::Value::Boolean(*b),
                crate::token_type::Literal::Null => crate::callables::Value::Null,
            };
            crate::callables::display_value(&v)
        },
        Expr::Unary(op, rr) => {
            let mut out: Vec<u8> = Vec::new();
            out.push(40);
            let ob = op.to_bytes();
            crate::callables::push_all(&mut out, ob.as_slice());
            out.push(32);
            let rb = parenthesize(rr);
            crate::callables::push_all(&mut out, rb.as_slice());
            out.push(41);
            proof {
                assert(out@ =~= spec_parenthesize(e@));
            }
            out
        },
        Expr::Variable(name) => {
            let mut out: Vec<u8> = Vec::new();
            out.push(40);
            out.push(118);
            out.push(97);
            out.push(114);
            out.push(32);
            crate::callables::push_all(&mut out, name.as_slice());
            out.push(41);
            proof {
                assert(out@ =~= spec_parenthesize(e@));
            }
            out
        },
        Expr::Assign(name, v) => {
            let mut out: Vec<u8> = Vec::new();
            out.push(40);
            out.push(97);
            out.push(115);
            out.push(115);
            out.push(105);
            out.push(103);
            out.push(110);
            out.push(32);
            crate::callables::push_all(&mut out, name.as_slice());
            out.push(32);
            let vb = parenthesize(v);
            crate::callables::push_all(&mut out, vb.as_slice());
            out.push(41);
            proof {
                assert(out@ =~= spec_parenthesize(e@));
            }
            out
        },
        Expr::Logical(l, op, rr) => {
            let mut out: Vec<u8> = Vec::new();
            out.push(40);
            let ob = op.to_bytes();
            crate::callables::push_all(&mut out, ob.as_slice());
            out.push(32);
            let lb = parenthesize(l);
            crate::callables::push_all(&mut out, lb.as_slice());
            out.push(32);
            let rb = parenthesize(rr);
            crate::callables::push_all(&mut out, rb.as_slice());
            out.push(41);
            proof {
                assert(out@ =~= spec_parenthesize(e@));
            }
            out
        },
        Expr::Call(callee, args) => {
            let mut out: Vec<u8> = Vec::new();
            out.push(40);
            let cb = parenthesize(callee);
            crate::callables::push_all(&mut out, cb.as_slice());
            out.push(44);
            out.push(32);
            out.push(91);
            let ghost head = out@;
            let ghost av = exprs_view(args@);
            proof {
                lemma_exprs_view(args@);
            }
            if args.len() > 0 {
                proof {
                    assert(decreases_to!((*e) => (*e)->Call_1));
                    assert(decreases_to!((*e)->Call_1 => (*e)->Call_1@[0]));
                    assert(decreases_to!(*e => args@[0]));
                }
                let b0 = parenthesize(&args[0]);
                crate::callables::push_all(&mut out, b0.as_slice());
                let mut i: usize = 1;
                proof {
                    assert(av.skip(1).take(0) =~= Seq::<ExprV>::empty());
                    assert(out@ =~= head + spec_parenthesize(av[0]) + spec_parens_args_rest(
                        av.skip(1).take(0),
                    ));
                }
                while i < args.len()
                    invariant
                        1 <= i <= args@.len(),
                        av == exprs_view(args@),
                        av.len() == args@.len(),
                        forall|k: int| 0 <= k < av.len() ==> av[k] == expr_view(args@[k]),
                        *e is Call,
                        (*e)->Call_1 == *args,
                        out@ == head + spec_parenthesize(av[0]) + spec_parens_args_rest(
                            av.skip(1).take(i - 1),
                        ),
                    decreases args@.len() - i,
                {
                    proof {
                        assert(decreases_to!((*e) => (*e)->Call_1));
                        assert(decreases_to!((*e)->Call_1 => (*e)->Call_1@[i as int]));
                        assert(decreases_to!(*e => args@[i as int]));
                    }
                    out.push(44);
                    out.push(32);
                    let bi = parenthesize(&args[i]);
                    crate::callables::push_all(&mut out, bi.as_slice());
                    proof {
                        lemma_parens_args_rest_snoc(av.skip(1), i - 1);
                        assert(av.skip(1)[i - 1] == av[i as int]);
                        assert(out@ =~= head + spec_parenthesize(av[0]) + spec_parens_args_rest(
                            av.skip(1).take(i as int),
                        ));
                    }
                    i += 1;
                }
                proof {
                    assert(av.skip(1).take(av.skip(1).len() as int) =~= av.skip(1));
                    assert(out@ =~= head + spec_parens_args(av));
                }
            } else {
                proof {
                    assert(out@ =~= head + spec_parens_args(av));
                }
            }
            out.push(93);
            out.push(41);
            proof {
                assert(out@ =~= spec_parenthesize(e@));
            }
            out
        },
    }
}

} // verus!
