//! Statement trees.
use vstd::prelude::*;

use crate::expr::Expr;
use crate::expr::ExprV;
use crate::expr::expr_eq;
use crate::expr::expr_view;
use crate::expr::exprs_view;
use crate::expr::lemma_exprs_view;
use crate::token_type::bytes_eq;

verus! {

broadcast use {vstd::std_specs::vec::group_vec_axioms, vstd::seq::axiom_seq_index_decreases};

#[derive(Debug)]
pub enum Stmt {
    Expression(Expr),
    Print(Expr),
    Var(Vec<u8>, Option<Expr>),
    Block(Vec<Stmt>),
    If(Expr, Box<Stmt>, Option<Box<Stmt>>),
    While(Expr, Box<Stmt>),
    For(Option<Box<Stmt>>, Option<Expr>, Option<Expr>, Box<Stmt>),
    Function(Vec<u8>, Vec<Expr>, Box<Stmt>),
    Return(Expr),
}

/// The mathematical shape of a statement.
pub enum StmtV {
    Expression(ExprV),
    Print(ExprV),
    Var(Seq<u8>, Option<ExprV>),
    Block(Seq<StmtV>),
    If(ExprV, Box<StmtV>, Option<Box<StmtV>>),
    While(ExprV, Box<StmtV>),
    For(Option<Box<StmtV>>, Option<ExprV>, Option<ExprV>, Box<StmtV>),
    Function(Seq<u8>, Seq<ExprV>, Box<StmtV>),
    Return(ExprV),
}

/// The shape of an optional expression.
pub open spec fn opt_expr_view(o: Option<Expr>) -> Option<ExprV> {
    match o {
        Some(e) => Some(expr_view(e)),
        None => None,
    }
}

/// The shape of a statement.
pub open spec fn stmt_view(s: Stmt) -> StmtV
    decreases s,
{
    match s {
        Stmt::Expression(e) => StmtV::Expression(expr_view(e)),
        Stmt::Print(e) => StmtV::Print(expr_view(e)),
        Stmt::Var(name, init) => StmtV::Var(name@, opt_expr_view(init)),
        Stmt::Block(list) => StmtV::Block(stmts_view(list@)),
        Stmt::If(c, t, e) => StmtV::If(
            expr_view(c),
            Box::new(stmt_view(*t)),
            match e {
                Some(b) => Some(Box::new(stmt_view(*b))),
                None => None,
            },
        ),
        Stmt::While(c, b) => StmtV::While(expr_view(c), Box::new(stmt_view(*b))),
        Stmt::For(init, cond, incr, b) => StmtV::For(
            match init {
                Some(i) => Some(Box::new(stmt_view(*i))),
                None => None,
            },
            opt_expr_view(cond),
            opt_expr_view(incr),
            Box::new(stmt_view(*b)),
        ),
        Stmt::Function(name, params, body) => StmtV::Function(
            name@,
            exprs_view(params@),
            Box::new(stmt_view(*body)),
        ),
        Stmt::Return(e) => StmtV::Return(expr_view(e)),
    }
}

/// The shapes of a list of statements.
pub open spec fn stmts_view(list: Seq<Stmt>) -> Seq<StmtV>
    decreases list,
{
    if list.len() == 0 {
        Seq::empty()
    } else {
        seq![stmt_view(list[0])] + stmts_view(list.skip(1))
    }
}

/// The shape of a list of statements is the list of shapes.
pub proof fn lemma_stmts_view(list: Seq<Stmt>)
    ensures
        stmts_view(list).len() == list.len(),
        forall|i: int| 0 <= i < list.len() ==> stmts_view(list)[i] == stmt_view(list[i]),
    decreases list.len(),
{
    if list.len() > 0 {
        lemma_stmts_view(list.skip(1));
    }
}


/// Appending one statement appends its shape.
pub proof fn lemma_stmts_view_push(list: Seq<Stmt>, st: Stmt)
    ensures
        stmts_view(list.push(st)) == stmts_view(list) + seq![stmt_view(st)],
{
    let p = list.push(st);
    lemma_stmts_view(p);
    lemma_stmts_view(list);
    assert forall|i: int| 0 <= i < p.len() implies stmts_view(p)[i] == (stmts_view(list) + seq![
        stmt_view(st),
    ])[i] by {
        if i < list.len() {
            assert(p[i] == list[i]);
        } else {
            assert(p[i] == st);
        }
    }
    assert(stmts_view(list.push(st)) =~= stmts_view(list) + seq![stmt_view(st)]);
}

impl View for Stmt {
    type V = StmtV;

    open spec fn view(&self) -> StmtV {
        stmt_view(*self)
    }
}

fn opt_expr_eq(a: &Option<Expr>, b: &Option<Expr>) -> (r: bool)
    ensures
        r == (opt_expr_view(*a) == opt_expr_view(*b)),
{
    match (a, b) {
        (Some(x), Some(y)) => expr_eq(x, y),
        (None, None) => true,
        _ => false,
    }
}

/// Structural equality of two statements.
pub fn stmt_eq(a: &Stmt, b: &Stmt) -> (r: bool)
    ensures
        r == (a@ == b@),
    decreases *a,
{
    match (a, b) {
        (Stmt::Expression(x), Stmt::Expression(y)) => expr_eq(x, y),
        (Stmt::Print(x), Stmt::Print(y)) => expr_eq(x, y),
        (Stmt::Var(n1, i1), Stmt::Var(n2, i2)) => bytes_eq(n1, n2) && opt_expr_eq(i1, i2),
        (Stmt::Block(l1), Stmt::Block(l2)) => {
            if l1.len() != l2.len() {
                proof {
                    lemma_stmts_view(l1@);
                    lemma_stmts_view(l2@);
                }
                false
            } else {
                let mut i: usize = 0;
                let mut same = true;
                while i < l1.len() && same
                    invariant
                        i <= l1@.len(),
                        l1@.len() == l2@.len(),
                        *a is Block,
                        (*a)->Block_0 == *l1,
                        same ==> forall|k: int| 0 <= k < i ==> stmt_view(l1@[k]) == stmt_view(
                            l2@[k],
                        ),
                        !same ==> stmts_view(l1@) != stmts_view(l2@),
                    decreases l1@.len() - i,
                {
                    proof {
                        assert(decreases_to!((*a) => (*a)->Block_0));
                        assert(decreases_to!((*a)->Block_0 => (*a)->Block_0@[i as int]));
                        assert(decreases_to!(*a => l1@[i as int]));
                    }
                    if !stmt_eq(&l1[i], &l2[i]) {
                        proof {
                            lemma_stmts_view(l1@);
                            lemma_stmts_view(l2@);
                            assert(stmts_view(l1@)[i as int] != stmts_view(l2@)[i as int]);
                        }
                        same = false;
                    }
                    i += 1;
                }
                proof {
                    lemma_stmts_view(l1@);
                    lemma_stmts_view(l2@);
                    if same {
                        assert(stmts_view(l1@) =~= stmts_view(l2@));
                    }
                }
                same
            }
        },
        (Stmt::If(c1, t1, e1), Stmt::If(c2, t2, e2)) => expr_eq(c1, c2) && stmt_eq(t1, t2) && match (
            e1,
            e2,
        ) {
            (Some(x), Some(y)) => stmt_eq(x, y),
            (None, None) => true,
            _ => false,
        },
        (Stmt::While(c1, b1), Stmt::While(c2, b2)) => expr_eq(c1, c2) && stmt_eq(b1, b2),
        (Stmt::For(i1, c1, n1, b1), Stmt::For(i2, c2, n2, b2)) => {
            let init_same = match (i1, i2) {
                (Some(x), Some(y)) => stmt_eq(x, y),
                (None, None) => true,
                _ => false,
            };
            init_same && opt_expr_eq(c1, c2) && opt_expr_eq(n1, n2) && stmt_eq(b1, b2)
        },
        (Stmt::Function(n1, p1, b1), Stmt::Function(n2, p2, b2)) => {
            if !bytes_eq(n1, n2) || !stmt_eq(b1, b2) {
                false
            } else if p1.len() != p2.len() {
                proof {
                    lemma_exprs_view(p1@);
                    lemma_exprs_view(p2@);
                }
                false
            } else {
                let mut i: usize = 0;
                let mut same = true;
                while i < p1.len() && same
                    invariant
                        i <= p1@.len(),
                        p1@.len() == p2@.len(),
                        same ==> forall|k: int| 0 <= k < i ==> expr_view(p1@[k]) == expr_view(
                            p2@[k],
                        ),
                        !same ==> exprs_view(p1@) != exprs_view(p2@),
                    decreases p1@.len() - i,
                {
                    if !expr_eq(&p1[i], &p2[i]) {
                        proof {
                            lemma_exprs_view(p1@);
                            lemma_exprs_view(p2@);
                            assert(exprs_view(p1@)[i as int] != exprs_view(p2@)[i as int]);
                        }
                        same = false;
                    }
                    i += 1;
                }
                proof {
                    lemma_exprs_view(p1@);
                    lemma_exprs_view(p2@);
                    if same {
                        assert(exprs_view(p1@) =~= exprs_view(p2@));
                    }
                }
                same
            }
        },
        (Stmt::Return(x), Stmt::Return(y)) => expr_eq(x, y),
        _ => false,
    }
}

fn opt_expr_clone(o: &Option<Expr>) -> (r: Option<Expr>)
    ensures
        opt_expr_view(r) == opt_expr_view(*o),
{
    match o {
        Some(e) => Some(crate::expr::expr_clone(e)),
        None => None,
    }
}

/// A copy of a statement with the same shape.
pub fn stmt_clone(s: &Stmt) -> (r: Stmt)
    ensures
        r@ == s@,
    decreases *s,
{
    match s {
        Stmt::Expression(e) => Stmt::Expression(crate::expr::expr_clone(e)),
        Stmt::Print(e) => Stmt::Print(crate::expr::expr_clone(e)),
        Stmt::Var(n, init) => Stmt::Var(crate::token_type::bytes_clone(n), opt_expr_clone(init)),
        Stmt::Block(list) => {
            let mut out: Vec<Stmt> = Vec::new();
            let mut i: usize = 0;
            while i < list.len()
                invariant
                    i <= list@.len(),
                    out@.len() == i,
                    *s is Block,
                    (*s)->Block_0 == *list,
                    forall|k: int| 0 <= k < i ==> stmt_view(out@[k]) == stmt_view(list@[k]),
                decreases list@.len() - i,
            {
                proof {
                    assert(decreases_to!((*s) => (*s)->Block_0));
                    assert(decreases_to!((*s)->Block_0 => (*s)->Block_0@[i as int]));
                    assert(decreases_to!(*s => list@[i as int]));
                }
                let c = stmt_clone(&list[i]);
                out.push(c);
                i += 1;
            }
            proof {
                lemma_stmts_view(out@);
                lemma_stmts_view(list@);
                assert(stmts_view(out@) =~= stmts_view(list@));
            }
            Stmt::Block(out)
        },
        Stmt::If(c, t, e) => Stmt::If(
            crate::expr::expr_clone(c),
            Box::new(stmt_clone(t)),
            match e {
                Some(b) => Some(Box::new(stmt_clone(b))),
                None => None,
            },
        ),
        Stmt::While(c, b) => Stmt::While(crate::expr::expr_clone(c), Box::new(stmt_clone(b))),
        Stmt::For(init, cond, incr, b) => Stmt::For(
            match init {
                Some(st) => Some(Box::new(stmt_clone(st))),
                None => None,
            },
            opt_expr_clone(cond),
            opt_expr_clone(incr),
            Box::new(stmt_clone(b)),
        ),
        Stmt::Function(n, params, body) => Stmt::Function(
            crate::token_type::bytes_clone(n),
            crate::expr::exprs_clone(params),
            Box::new(stmt_clone(body)),
        ),
        Stmt::Return(e) => Stmt::Return(crate::expr::expr_clone(e)),
    }
}

impl PartialEq for Stmt {
    fn eq(&self, other: &Stmt) -> (r: bool) {
        stmt_eq(self, other)
    }
}

impl vstd::std_specs::cmp::PartialEqSpecImpl for Stmt {
    open spec fn obeys_eq_spec() -> bool {
        true
    }

    open spec fn eq_spec(&self, other: &Stmt) -> bool {
        self@ == other@
    }
}

} // verus!
