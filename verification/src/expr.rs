//! Expression trees.
use vstd::prelude::*;

pub use crate::token_type::Literal;
pub use crate::token_type::LiteralV;
use crate::token_type::Operator;
use crate::token_type::bytes_eq;

verus! {

broadcast use {vstd::std_specs::vec::group_vec_axioms, vstd::seq::axiom_seq_index_decreases};

#[derive(Debug)]
pub enum Expr {
    Assign(Vec<u8>, Box<Expr>),
    Binary(Box<Expr>, Operator, Box<Expr>),
    Grouping(Box<Expr>),
    Literal(Literal),
    Unary(Operator, Box<Expr>),
    Variable(Vec<u8>),
    Logical(Box<Expr>, Operator, Box<Expr>),
    Call(Box<Expr>, Vec<Expr>),
}

/// The mathematical shape of an expression.
pub enum ExprV {
    Assign(Seq<u8>, Box<ExprV>),
    Binary(Box<ExprV>, Operator, Box<ExprV>),
    Grouping(Box<ExprV>),
    Literal(LiteralV),
    Unary(Operator, Box<ExprV>),
    Variable(Seq<u8>),
    Logical(Box<ExprV>, Operator, Box<ExprV>),
    Call(Box<ExprV>, Seq<ExprV>),
}

/// The shape of an expression.
pub open spec fn expr_view(e: Expr) -> ExprV
    decreases e,
{
    match e {
        Expr::Assign(name, value) => ExprV::Assign(name@, Box::new(expr_view(*value))),
        Expr::Binary(l, op, r) => ExprV::Binary(Box::new(expr_view(*l)), op, Box::new(expr_view(*r))),
        Expr::Grouping(inner) => ExprV::Grouping(Box::new(expr_view(*inner))),
        Expr::Literal(l) => ExprV::Literal(l@),
        Expr::Unary(op, r) => ExprV::Unary(op, Box::new(expr_view(*r))),
        Expr::Variable(name) => ExprV::Variable(name@),
        Expr::Logical(l, op, r) => ExprV::Logical(
            Box::new(expr_view(*l)),
            op,
            Box::new(expr_view(*r)),
        ),
        Expr::Call(callee, args) => ExprV::Call(Box::new(expr_view(*callee)), exprs_view(args@)),
    }
}

/// The shapes of a list of expressions.
pub open spec fn exprs_view(args: Seq<Expr>) -> Seq<ExprV>
    decreases args,
{
    if args.len() == 0 {
        Seq::empty()
    } else {
        seq![expr_view(args[0])] + exprs_view(args.skip(1))
    }
}

/// The shape of a list of expressions is the list of shapes.
pub proof fn lemma_exprs_view(args: Seq<Expr>)
    ensures
        exprs_view(args).len() == args.len(),
        forall|i: int| 0 <= i < args.len() ==> exprs_view(args)[i] == expr_view(args[i]),
    decreases args.len(),
{
    if args.len() > 0 {
        lemma_exprs_view(args.skip(1));
    }
}

impl View for Expr {
    type V = ExprV;

    open spec fn view(&self) -> ExprV {
        expr_view(*self)
    }
}

/// Appending one expression appends its shape.
pub proof fn lemma_exprs_view_push(args: Seq<Expr>, e: Expr)
    ensures
        exprs_view(args.push(e)) == exprs_view(args) + seq![expr_view(e)],
{
    let p = args.push(e);
    lemma_exprs_view(p);
    lemma_exprs_view(args);
    assert forall|i: int| 0 <= i < p.len() implies exprs_view(p)[i] == (exprs_view(args) + seq![
        expr_view(e),
    ])[i] by {
        if i < args.len() {
            assert(p[i] == args[i]);
        } else {
            assert(p[i] == e);
        }
    }
    assert(exprs_view(args.push(e)) =~= exprs_view(args) + seq![expr_view(e)]);
}

/// Structural equality of two expressions.
pub fn expr_eq(a: &Expr, b: &Expr) -> (r: bool)
    ensures
        r == (a@ == b@),
    decreases *a,
{
    match (a, b) {
        (Expr::Assign(n1, v1), Expr::Assign(n2, v2)) => bytes_eq(n1, n2) && expr_eq(v1, v2),
        (Expr::Binary(l1, o1, r1), Expr::Binary(l2, o2, r2)) => o1 == o2 && expr_eq(l1, l2)
            && expr_eq(r1, r2),
        (Expr::Grouping(i1), Expr::Grouping(i2)) => expr_eq(i1, i2),
        (Expr::Literal(l1), Expr::Literal(l2)) => l1 == l2,
        (Expr::Unary(o1, r1), Expr::Unary(o2, r2)) => o1 == o2 && expr_eq(r1, r2),
        (Expr::Variable(n1), Expr::Variable(n2)) => bytes_eq(n1, n2),
        (Expr::Logical(l1, o1, r1), Expr::Logical(l2, o2, r2)) => o1 == o2 && expr_eq(l1, l2)
            && expr_eq(r1, r2),
        (Expr::Call(c1, a1), Expr::Call(c2, a2)) => {
            if !expr_eq(c1, c2) {
                false
            } else if a1.len() != a2.len() {
                proof {
                    lemma_exprs_view(a1@);
                    lemma_exprs_view(a2@);
                }
                false
            } else {
                let mut i: usize = 0;
                let mut same = true;
                proof {
                    lemma_exprs_view(a1@);
                    lemma_exprs_view(a2@);
                }
                while i < a1.len() && same
                    invariant
                        i <= a1@.len(),
                        a1@.len() == a2@.len(),
                        *a is Call,
                        (*a)->Call_1 == *a1,
                        same ==> forall|k: int| 0 <= k < i ==> expr_view(a1@[k]) == expr_view(
                            a2@[k],
                        ),
                        !same ==> exprs_view(a1@) != exprs_view(a2@),
                    decreases a1@.len() - i,
                {
                    proof {
                        assert(decreases_to!((*a) => (*a)->Call_1));
                        assert(decreases_to!((*a)->Call_1 => (*a)->Call_1@[i as int]));
                        assert(decreases_to!(*a => a1@[i as int]));
                    }
                    if !expr_eq(&a1[i], &a2[i]) {
                        proof {
                            lemma_exprs_view(a1@);
                            lemma_exprs_view(a2@);
                            assert(exprs_view(a1@)[i as int] != exprs_view(a2@)[i as int]);
                        }
                        same = false;
                    }
                    i += 1;
                }
                proof {
                    lemma_exprs_view(a1@);
                    lemma_exprs_view(a2@);
                    if same {
                        assert(exprs_view(a1@) =~= exprs_view(a2@));
                    }
                }
                same
            }
        },
        _ => false,
    }
}

/// A copy of an expression with the same shape.
pub fn expr_clone(e: &Expr) -> (r: Expr)
    ensures
        r@ == e@,
    decreases *e,
{
    match e {
        Expr::Assign(n, v) => Expr::Assign(crate::token_type::bytes_clone(n), Box::new(expr_clone(v))),
        Expr::Binary(l, op, rr) => Expr::Binary(
            Box::new(expr_clone(l)),
            *op,
            Box::new(expr_clone(rr)),
        ),
        Expr::Grouping(i) => Expr::Grouping(Box::new(expr_clone(i))),
        Expr::Literal(l) => Expr::Literal(crate::token_type::lit_clone(l)),
        Expr::Unary(op, rr) => Expr::Unary(*op, Box::new(expr_clone(rr))),
        Expr::Variable(n) => Expr::Variable(crate::token_type::bytes_clone(n)),
        Expr::Logical(l, op, rr) => Expr::Logical(
            Box::new(expr_clone(l)),
            *op,
            Box::new(expr_clone(rr)),
        ),
        Expr::Call(c, args) => {
            let cc = expr_clone(c);
            let mut out: Vec<Expr> = Vec::new();
            let mut i: usize = 0;
            while i < args.len()
                invariant
                    i <= args@.len(),
                    out@.len() == i,
                    *e is Call,
                    (*e)->Call_1 == *args,
                    forall|k: int| 0 <= k < i ==> expr_view(out@[k]) == expr_view(args@[k]),
                decreases args@.len() - i,
            {
                proof {
                    assert(decreases_to!((*e) => (*e)->Call_1));
                    assert(decreases_to!((*e)->Call_1 => (*e)->Call_1@[i as int]));
                    assert(decreases_to!(*e => args@[i as int]));
                }
                let c2 = expr_clone(&args[i]);
                out.push(c2);
                i += 1;
            }
            proof {
                lemma_exprs_view(out@);
                lemma_exprs_view(args@);
                assert(exprs_view(out@) =~= exprs_view(args@));
            }
            Expr::Call(Box::new(cc), out)
        },
    }
}

/// A copy of a list of expressions with the same shapes.
pub fn exprs_clone(v: &Vec<Expr>) -> (r: Vec<Expr>)
    ensures
        exprs_view(r@) == exprs_view(v@),
{
    let mut out: Vec<Expr> = Vec::new();
    let mut i: usize = 0;
    while i < v.len()
        invariant
            i <= v@.len(),
            out@.len() == i,
            forall|k: int| 0 <= k < i ==> expr_view(out@[k]) == expr_view(v@[k]),
        decreases v@.len() - i,
    {
        let c = expr_clone(&v[i]);
        out.push(c);
        i += 1;
    }
    proof {
        lemma_exprs_view(out@);
        lemma_exprs_view(v@);
        assert(exprs_view(out@) =~= exprs_view(v@));
    }
    out
}

/// Structural equality of two lists of expressions.
pub fn exprs_eq(a: &Vec<Expr>, b: &Vec<Expr>) -> (r: bool)
    ensures
        r == (exprs_view(a@) == exprs_view(b@)),
{
    proof {
        lemma_exprs_view(a@);
        lemma_exprs_view(b@);
    }
    if a.len() != b.len() {
        return false;
    }
    let mut i: usize = 0;
    while i < a.len()
        invariant
            i <= a@.len(),
            a@.len() == b@.len(),
            forall|k: int| 0 <= k < i ==> expr_view(a@[k]) == expr_view(b@[k]),
        decreases a@.len() - i,
    {
        if !expr_eq(&a[i], &b[i]) {
            proof {
                lemma_exprs_view(a@);
                lemma_exprs_view(b@);
                assert(exprs_view(a@)[i as int] != exprs_view(b@)[i as int]);
            }
            return false;
        }
        i += 1;
    }
    proof {
        lemma_exprs_view(a@);
        lemma_exprs_view(b@);
        assert(exprs_view(a@) =~= exprs_view(b@));
    }
    true
}

impl PartialEq for Expr {
    fn eq(&self, other: &Expr) -> (r: bool) {
        expr_eq(self, other)
    }
}

impl vstd::std_specs::cmp::PartialEqSpecImpl for Expr {
    open spec fn obeys_eq_spec() -> bool {
        true
    }

    open spec fn eq_spec(&self, other: &Expr) -> bool {
        self@ == other@
    }
}

} // verus!
