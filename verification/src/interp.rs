//! The tree-walking evaluator: statements and expressions to values, over
//! the scope arena, with printed lines collected for the embedder and a
//! one-slot pending return value.
//!
//! Every evaluation step carries a fuel bound, as the parser does; a
//! program fails on it only past a depth and step count beyond practical
//! programs.
use vstd::prelude::*;

use crate::callables::Callable;
use crate::callables::CallableV;
use crate::callables::CustomFn;
use crate::callables::CustomFnV;
use crate::callables::NativeFn;
use crate::callables::NativeFnV;
use crate::callables::NativeKind;
use crate::callables::Value;
use crate::callables::ValueV;
use crate::callables::display_value;
use crate::callables::push_all;
use crate::callables::spec_display;
use crate::callables::spec_truthy;
use crate::callables::spec_value_eq;
use crate::callables::truthy;
use crate::callables::value_clone;
use crate::callables::value_eq;
use crate::env::Binding;
use crate::env::BindingV;
use crate::env::Env;
use crate::env::EnvV;
use crate::env::env_wf;
use crate::env::spec_env_get;
use crate::env::spec_redefine;
use crate::env::spec_remove;
use crate::env::spec_scope_get;
use crate::env::spec_scope_idx;
use crate::env::lemma_scope_idx;
use crate::expr::Expr;
use crate::expr::ExprV;
use crate::expr::expr_view;
use crate::expr::exprs_view;
use crate::numbers::NUM_NEG_ONE_BITS;
use crate::numbers::NUM_ONE_BITS;
use crate::numbers::add_bits;
use crate::numbers::clock_seconds;
use crate::numbers::div_bits;
use crate::numbers::mul_bits;
use crate::numbers::num_abs_bits;
use crate::numbers::num_eq;
use crate::numbers::num_le;
use crate::numbers::num_lt;
use crate::numbers::num_neg;
use crate::numbers::number_of_u64;
use crate::numbers::parse_number_bits;
use crate::numbers::parsed_number;
use crate::numbers::round_count;
use crate::numbers::rounded_count;
use crate::numbers::spec_num_abs_bits;
use crate::numbers::spec_num_eq;
use crate::numbers::spec_num_le;
use crate::numbers::spec_num_lt;
use crate::numbers::spec_num_neg;
use crate::numbers::sub_bits;
use crate::numbers::u64_to_number_bits;
use crate::numbers::num_add_bits;
use crate::numbers::num_div_bits;
use crate::numbers::num_mul_bits;
use crate::numbers::num_sub_bits;
use crate::numbers::number_of_u64 as _;
use crate::stmt::Stmt;
use crate::stmt::StmtV;
use crate::stmt::stmt_view;
use crate::stmt::stmts_view;
use crate::token_type::LiteralV;
use crate::token_type::Operator;
use crate::token_type::bytes_clone;

verus! {

/// Fuel handed to the evaluator for each top-level call.
pub const EVAL_FUEL: u64 = 1_000_000;

/// A runtime failure: an undefined name, an operation on the wrong kinds of
/// value, or an evaluation past the fuel bound.
#[derive(Debug)]
pub enum RuntimeError {
    /// The named variable is not defined (or, for assignment, was never
    /// initialised).
    Resolve(Vec<u8>),
    /// An operator or call was applied to values of the wrong kind.
    Type,
    /// Evaluation exceeded the fuel bound.
    Other,
}

/// The mathematical shape of a runtime failure.
pub enum RuntimeErrorV {
    Resolve(Seq<u8>),
    Type,
    Other,
}

impl View for RuntimeError {
    type V = RuntimeErrorV;

    open spec fn view(&self) -> RuntimeErrorV {
        match self {
            RuntimeError::Resolve(n) => RuntimeErrorV::Resolve(n@),
            RuntimeError::Type => RuntimeErrorV::Type,
            RuntimeError::Other => RuntimeErrorV::Other,
        }
    }
}

/// The mathematical shape of the evaluator's state.
#[verifier::ext_equal]
pub struct InterpV {
    pub env: EnvV,
    pub global: usize,
    pub local: usize,
    pub output: Seq<Seq<u8>>,
    pub ret: Option<ValueV>,
    pub clock_now: u64,
}

/// A value whose captured scope, if any, exists among `n` scopes.
pub open spec fn value_ok(v: ValueV, n: int) -> bool {
    match v {
        ValueV::Function(CallableV::Custom(f)) => f.closure < n,
        _ => true,
    }
}

/// Every stored value's captured scope exists.
pub open spec fn vars_ok(e: EnvV) -> bool {
    forall|k: int|
        0 <= k < e.vars.len() ==> value_ok(#[trigger] e.vars[k].value, e.parents.len() as int)
}

/// A well-formed evaluator state: parent links point backwards, the global
/// and local handles exist, and every stored or pending value's captured
/// scope exists.
pub open spec fn interp_wf(st: InterpV) -> bool {
    &&& env_wf(st.env)
    &&& st.global < st.env.parents.len()
    &&& st.local < st.env.parents.len()
    &&& vars_ok(st.env)
    &&& (st.ret matches Some(v) ==> value_ok(v, st.env.parents.len() as int))
}

/// The runtime value of a literal.
pub open spec fn spec_lit_value(l: LiteralV) -> ValueV {
    match l {
        LiteralV::Num(b) => ValueV::Number(b),
        LiteralV::Str(s) => ValueV::Str(s),
        LiteralV::Bool(b) => ValueV::Bool(b),
        LiteralV::Null => ValueV::Null,
    }
}

/// The bytes repeated `n` times.
pub open spec fn spec_repeat(s: Seq<u8>, n: nat) -> Seq<u8>
    decreases n,
{
    if n == 0 {
        Seq::empty()
    } else {
        spec_repeat(s, (n - 1) as nat) + s
    }
}

/// The value of a unary operator: `+` coerces towards a number (strings
/// parse, failing to null), `-` mirrors it negated, `!` complements
/// truthiness; `+`/`-` on a function fail.
pub open spec fn spec_unary_value(op: Operator, v: ValueV) -> Result<ValueV, RuntimeErrorV> {
    match op {
        Operator::Add => match v {
            ValueV::Number(n) => Ok(ValueV::Number(spec_num_abs_bits(n))),
            ValueV::Str(s) => if s.len() == 0 {
                Ok(ValueV::Number(0))
            } else {
                match parsed_number(s) {
                    Some(b) => Ok(ValueV::Number(b)),
                    None => Ok(ValueV::Null),
                }
            },
            ValueV::Bool(b) => Ok(
                ValueV::Number(
                    if b {
                        NUM_ONE_BITS
                    } else {
                        0
                    },
                ),
            ),
            ValueV::Null => Ok(ValueV::Number(0)),
            ValueV::Function(_) => Err(RuntimeErrorV::Type),
        },
        Operator::Sub => match v {
            ValueV::Number(n) => Ok(ValueV::Number(spec_num_neg(n))),
            ValueV::Str(s) => if s.len() == 0 {
                Ok(ValueV::Number(0))
            } else {
                match parsed_number(s) {
                    Some(b) => Ok(ValueV::Number(spec_num_neg(b))),
                    None => Ok(ValueV::Null),
                }
            },
            ValueV::Bool(b) => Ok(
                ValueV::Number(
                    if b {
                        NUM_NEG_ONE_BITS
                    } else {
                        0
                    },
                ),
            ),
            ValueV::Null => Ok(ValueV::Number(0)),
            ValueV::Function(_) => Err(RuntimeErrorV::Type),
        },
        Operator::Not => Ok(ValueV::Bool(!spec_truthy(v))),
        _ => Err(RuntimeErrorV::Type),
    }
}

/// The value of a binary operator: structural equality on any kinds,
/// ordering on numbers, `+` adds numbers or joins text, `*` multiplies
/// numbers or repeats text, `-` and `/` work on numbers alone.
pub open spec fn spec_binary_value(op: Operator, a: ValueV, b: ValueV) -> Result<
    ValueV,
    RuntimeErrorV,
> {
    match op {
        Operator::EqEq => Ok(ValueV::Bool(spec_value_eq(a, b))),
        Operator::NotEq => Ok(ValueV::Bool(!spec_value_eq(a, b))),
        Operator::Gt => match (a, b) {
            (ValueV::Number(x), ValueV::Number(y)) => Ok(ValueV::Bool(spec_num_lt(y, x))),
            _ => Err(RuntimeErrorV::Type),
        },
        Operator::Gte => match (a, b) {
            (ValueV::Number(x), ValueV::Number(y)) => Ok(ValueV::Bool(spec_num_le(y, x))),
            _ => Err(RuntimeErrorV::Type),
        },
        Operator::Lt => match (a, b) {
            (ValueV::Number(x), ValueV::Number(y)) => Ok(ValueV::Bool(spec_num_lt(x, y))),
            _ => Err(RuntimeErrorV::Type),
        },
        Operator::Lte => match (a, b) {
            (ValueV::Number(x), ValueV::Number(y)) => Ok(ValueV::Bool(spec_num_le(x, y))),
            _ => Err(RuntimeErrorV::Type),
        },
        Operator::Add => match (a, b) {
            (ValueV::Number(x), ValueV::Number(y)) => Ok(ValueV::Number(num_add_bits(x, y))),
            (ValueV::Str(x), ValueV::Str(y)) => Ok(ValueV::Str(x + y)),
            _ => Err(RuntimeErrorV::Type),
        },
        Operator::Sub => match (a, b) {
            (ValueV::Number(x), ValueV::Number(y)) => Ok(ValueV::Number(num_sub_bits(x, y))),
            _ => Err(RuntimeErrorV::Type),
        },
        Operator::Mul => match (a, b) {
            (ValueV::Number(x), ValueV::Number(y)) => Ok(ValueV::Number(num_mul_bits(x, y))),
            (ValueV::Number(n), ValueV::Str(s)) => Ok(
                ValueV::Str(spec_repeat(s, rounded_count(n) as nat)),
            ),
            (ValueV::Str(s), ValueV::Number(n)) => Ok(
                ValueV::Str(spec_repeat(s, rounded_count(n) as nat)),
            ),
            _ => Err(RuntimeErrorV::Type),
        },
        Operator::Div => match (a, b) {
            (ValueV::Number(x), ValueV::Number(y)) => Ok(ValueV::Number(num_div_bits(x, y))),
            _ => Err(RuntimeErrorV::Type),
        },
        _ => Err(RuntimeErrorV::Type),
    }
}

/// A unary or binary operator never produces a function value.
pub proof fn lemma_op_values_plain(op: Operator, a: ValueV, b: ValueV, n: int)
    ensures
        spec_unary_value(op, a) matches Ok(v) ==> value_ok(v, n),
        spec_binary_value(op, a, b) matches Ok(v) ==> value_ok(v, n),
{
}

/// The environment after binding each parameter name to its argument (or
/// null past the end) in the call scope; false where a parameter is not a
/// plain name.
pub open spec fn spec_bind_params(
    env: EnvV,
    scope: usize,
    inputs: Seq<ExprV>,
    args: Seq<ValueV>,
) -> (EnvV, bool)
    decreases inputs.len(),
{
    if inputs.len() == 0 {
        (env, true)
    } else {
        match inputs[0] {
            ExprV::Variable(p) => {
                let arg = if args.len() > 0 {
                    args[0]
                } else {
                    ValueV::Null
                };
                let env1 = EnvV {
                    vars: env.vars.push(BindingV { scope, name: p, value: arg }),
                    parents: env.parents,
                };
                let rest = if args.len() > 0 {
                    args.skip(1)
                } else {
                    args
                };
                spec_bind_params(env1, scope, inputs.skip(1), rest)
            },
            _ => (env, false),
        }
    }
}

/// The variable lookup an expression performs: the local chain first, the
/// global chain as fallback.
pub open spec fn spec_lookup(st: InterpV, name: Seq<u8>) -> Option<ValueV> {
    match spec_env_get(st.env, st.local, name) {
        Some(v) => Some(v),
        None => spec_env_get(st.env, st.global, name),
    }
}

/// One step of evaluation of an expression.
pub open spec fn spec_eval_expr(st: InterpV, e: ExprV, fuel: nat) -> (
    InterpV,
    Result<ValueV, RuntimeErrorV>,
)
    decreases fuel,
{
    if fuel == 0 {
        (st, Err(RuntimeErrorV::Other))
    } else {
        match e {
            ExprV::Literal(l) => (st, Ok(spec_lit_value(l))),
            ExprV::Variable(name) => match spec_lookup(st, name) {
                Some(v) => (st, Ok(v)),
                None => (st, Err(RuntimeErrorV::Resolve(name))),
            },
            ExprV::Assign(name, val) => {
                let (st1, r) = spec_eval_expr(st, *val, (fuel - 1) as nat);
                match r {
                    Ok(v) => match spec_redefine(st1.env, st1.local, name, v) {
                        Some(env2) => (InterpV { env: env2, ..st1 }, Ok(v)),
                        None => (st1, Err(RuntimeErrorV::Resolve(name))),
                    },
                    Err(er) => (st1, Err(er)),
                }
            },
            ExprV::Grouping(inner) => spec_eval_expr(st, *inner, (fuel - 1) as nat),
            ExprV::Unary(op, r) => {
                let (st1, rr) = spec_eval_expr(st, *r, (fuel - 1) as nat);
                match rr {
                    Ok(v) => (st1, spec_unary_value(op, v)),
                    Err(er) => (st1, Err(er)),
                }
            },
            ExprV::Binary(l, op, r) => {
                let (st1, lr) = spec_eval_expr(st, *l, (fuel - 1) as nat);
                match lr {
                    Ok(lv) => {
                        let (st2, rr) = spec_eval_expr(st1, *r, (fuel - 1) as nat);
                        match rr {
                            Ok(rv) => (st2, spec_binary_value(op, lv, rv)),
                            Err(er) => (st2, Err(er)),
                        }
                    },
                    Err(er) => (st1, Err(er)),
                }
            },
            ExprV::Logical(l, op, r) => {
                let (st1, lr) = spec_eval_expr(st, *l, (fuel - 1) as nat);
                match lr {
                    Ok(lv) => match op {
                        Operator::Or => if spec_truthy(lv) {
                            (st1, Ok(lv))
                        } else {
                            spec_eval_expr(st1, *r, (fuel - 1) as nat)
                        },
                        Operator::And => if spec_truthy(lv) {
                            spec_eval_expr(st1, *r, (fuel - 1) as nat)
                        } else {
                            (st1, Ok(lv))
                        },
                        _ => (st1, Err(RuntimeErrorV::Type)),
                    },
                    Err(er) => (st1, Err(er)),
                }
            },
            ExprV::Call(callee, args) => {
                let (st1, cr) = spec_eval_expr(st, *callee, (fuel - 1) as nat);
                match cr {
                    Ok(cv) => {
                        let (st2, ar) = spec_eval_args(st1, args, Seq::empty(), (fuel - 1) as nat);
                        match ar {
                            Ok(avs) => spec_call_fn(st2, cv, avs, (fuel - 1) as nat),
                            Err(er) => (st2, Err(er)),
                        }
                    },
                    Err(er) => (st1, Err(er)),
                }
            },
        }
    }
}

/// Left-to-right evaluation of an argument list.
pub open spec fn spec_eval_args(st: InterpV, es: Seq<ExprV>, acc: Seq<ValueV>, fuel: nat) -> (
    InterpV,
    Result<Seq<ValueV>, RuntimeErrorV>,
)
    decreases fuel,
{
    if fuel == 0 {
        (st, Err(RuntimeErrorV::Other))
    } else if es.len() == 0 {
        (st, Ok(acc))
    } else {
        let (st1, r) = spec_eval_expr(st, es[0], (fuel - 1) as nat);
        match r {
            Ok(v) => spec_eval_args(st1, es.skip(1), acc.push(v), (fuel - 1) as nat),
            Err(er) => (st1, Err(er)),
        }
    }
}

/// A call of a callable value on already-evaluated arguments. A native call
/// performs its host operation; a user call opens a scope under the
/// function's captured scope, binds parameters and the function's own name,
/// runs the body, and takes the pending return value if one was set.
pub open spec fn spec_call_fn(st: InterpV, cv: ValueV, args: Seq<ValueV>, fuel: nat) -> (
    InterpV,
    Result<ValueV, RuntimeErrorV>,
)
    decreases fuel,
{
    if fuel == 0 {
        (st, Err(RuntimeErrorV::Other))
    } else {
        match cv {
            ValueV::Function(CallableV::Native(n)) => match n.kind {
                NativeKind::Clock => (
                    st,
                    Ok(ValueV::Number(crate::numbers::number_of_u64(st.clock_now))),
                ),
            },
            ValueV::Function(CallableV::Custom(f)) => {
                let ns = st.env.parents.len() as usize;
                let env1 = EnvV { vars: st.env.vars, parents: st.env.parents.push(Some(f.closure)) };
                let (env2, ok) = spec_bind_params(env1, ns, f.inputs, args);
                if !ok {
                    (InterpV { env: env2, ..st }, Err(RuntimeErrorV::Type))
                } else {
                    let env3 = EnvV {
                        vars: env2.vars.push(
                            BindingV {
                                scope: ns,
                                name: f.name,
                                value: ValueV::Function(CallableV::Custom(f)),
                            },
                        ),
                        parents: env2.parents,
                    };
                    let st1 = InterpV { env: env3, local: ns, ret: None, ..st };
                    let (st2, br) = spec_eval_stmt(st1, f.body, (fuel - 1) as nat);
                    match br {
                        Ok(bv) => {
                            let result = match st2.ret {
                                Some(v) => v,
                                None => bv,
                            };
                            (InterpV { local: st.local, ret: st.ret, ..st2 }, Ok(result))
                        },
                        Err(er) => (InterpV { local: st.local, ret: st.ret, ..st2 }, Err(er)),
                    }
                }
            },
            _ => (st, Err(RuntimeErrorV::Type)),
        }
    }
}

/// One step of evaluation of a statement.
pub open spec fn spec_eval_stmt(st: InterpV, s: StmtV, fuel: nat) -> (
    InterpV,
    Result<ValueV, RuntimeErrorV>,
)
    decreases fuel,
{
    if fuel == 0 {
        (st, Err(RuntimeErrorV::Other))
    } else {
        match s {
            StmtV::Expression(e) => spec_eval_expr(st, e, (fuel - 1) as nat),
            StmtV::Print(e) => {
                let (st1, r) = spec_eval_expr(st, e, (fuel - 1) as nat);
                match r {
                    Ok(v) => (
                        InterpV { output: st1.output.push(spec_display(v)), ..st1 },
                        Ok(v),
                    ),
                    Err(er) => (st1, Err(er)),
                }
            },
            StmtV::Var(name, init) => {
                let (st1, r) = match init {
                    Some(e) => spec_eval_expr(st, e, (fuel - 1) as nat),
                    None => (st, Ok(ValueV::Null)),
                };
                match r {
                    Ok(v) => (
                        InterpV {
                            env: EnvV {
                                vars: st1.env.vars.push(
                                    BindingV { scope: st1.local, name, value: v },
                                ),
                                parents: st1.env.parents,
                            },
                            ..st1
                        },
                        Ok(v),
                    ),
                    Err(er) => (st1, Err(er)),
                }
            },
            StmtV::Block(list) => {
                let ns = st.env.parents.len() as usize;
                let st1 = InterpV {
                    env: EnvV { vars: st.env.vars, parents: st.env.parents.push(Some(st.local)) },
                    local: ns,
                    ..st
                };
                let (st2, r) = spec_eval_block(st1, list, ValueV::Null, (fuel - 1) as nat);
                (InterpV { local: st.local, ..st2 }, r)
            },
            StmtV::If(c, t, e) => {
                let (st1, cr) = spec_eval_expr(st, c, (fuel - 1) as nat);
                match cr {
                    Ok(cv) => if spec_truthy(cv) {
                        spec_eval_stmt(st1, *t, (fuel - 1) as nat)
                    } else {
                        match e {
                            Some(eb) => spec_eval_stmt(st1, *eb, (fuel - 1) as nat),
                            None => (st1, Ok(ValueV::Null)),
                        }
                    },
                    Err(er) => (st1, Err(er)),
                }
            },
            StmtV::While(c, b) => spec_eval_while(st, c, *b, ValueV::Null, (fuel - 1) as nat),
            StmtV::For(init, cond, incr, b) => {
                let (st1, ir) = match init {
                    Some(is) => spec_eval_stmt(st, *is, (fuel - 1) as nat),
                    None => (st, Ok(ValueV::Null)),
                };
                match ir {
                    Ok(_) => {
                        let (st2, r) = spec_eval_for(st1, cond, incr, *b, ValueV::Null, (fuel - 1) as nat);
                        match r {
                            Ok(v) => {
                                let cleaned = match init {
                                    Some(is) => match *is {
                                        StmtV::Var(n, _) => InterpV {
                                            env: spec_remove(st2.env, st2.local, n),
                                            ..st2
                                        },
                                        _ => st2,
                                    },
                                    None => st2,
                                };
                                (cleaned, Ok(v))
                            },
                            Err(er) => (st2, Err(er)),
                        }
                    },
                    Err(er) => (st1, Err(er)),
                }
            },
            StmtV::Function(name, params, body) => (
                InterpV {
                    env: EnvV {
                        vars: st.env.vars.push(
                            BindingV {
                                scope: st.local,
                                name,
                                value: ValueV::Function(
                                    CallableV::Custom(
                                        CustomFnV {
                                            name,
                                            inputs: params,
                                            body: *body,
                                            closure: st.local,
                                        },
                                    ),
                                ),
                            },
                        ),
                        parents: st.env.parents,
                    },
                    ..st
                },
                Ok(ValueV::Null),
            ),
            StmtV::Return(e) => {
                let (st1, r) = spec_eval_expr(st, e, (fuel - 1) as nat);
                match r {
                    Ok(v) => (InterpV { ret: Some(v), ..st1 }, Ok(v)),
                    Err(er) => (st1, Err(er)),
                }
            },
        }
    }
}

/// Sequential evaluation of a block's statements: the last value is carried
/// along, and a pending return stops the walk.
pub open spec fn spec_eval_block(st: InterpV, list: Seq<StmtV>, last: ValueV, fuel: nat) -> (
    InterpV,
    Result<ValueV, RuntimeErrorV>,
)
    decreases fuel,
{
    if fuel == 0 {
        (st, Err(RuntimeErrorV::Other))
    } else if list.len() == 0 {
        (st, Ok(last))
    } else {
        let (st1, r) = spec_eval_stmt(st, list[0], (fuel - 1) as nat);
        match r {
            Ok(v) => if st1.ret is Some {
                (st1, Ok(v))
            } else {
                spec_eval_block(st1, list.skip(1), v, (fuel - 1) as nat)
            },
            Err(er) => (st1, Err(er)),
        }
    }
}

/// A while loop: the condition is re-evaluated before each pass; the value
/// is the last body value; a pending return stops the loop.
pub open spec fn spec_eval_while(st: InterpV, c: ExprV, b: StmtV, last: ValueV, fuel: nat) -> (
    InterpV,
    Result<ValueV, RuntimeErrorV>,
)
    decreases fuel,
{
    if fuel == 0 {
        (st, Err(RuntimeErrorV::Other))
    } else {
        let (st1, cr) = spec_eval_expr(st, c, (fuel - 1) as nat);
        match cr {
            Ok(cv) => if !spec_truthy(cv) {
                (st1, Ok(last))
            } else {
                let (st2, br) = spec_eval_stmt(st1, b, (fuel - 1) as nat);
                match br {
                    Ok(bv) => if st2.ret is Some {
                        (st2, Ok(bv))
                    } else {
                        spec_eval_while(st2, c, b, bv, (fuel - 1) as nat)
                    },
                    Err(er) => (st2, Err(er)),
                }
            },
            Err(er) => (st1, Err(er)),
        }
    }
}

/// A for loop after its initialiser: an absent condition counts as true,
/// the increment runs after each body pass and its value is the pass's
/// value, and a pending return stops the loop.
pub open spec fn spec_eval_for(
    st: InterpV,
    cond: Option<ExprV>,
    incr: Option<ExprV>,
    b: StmtV,
    last: ValueV,
    fuel: nat,
) -> (InterpV, Result<ValueV, RuntimeErrorV>)
    decreases fuel,
{
    if fuel == 0 {
        (st, Err(RuntimeErrorV::Other))
    } else {
        let (st1, cr) = match cond {
            Some(c) => spec_eval_expr(st, c, (fuel - 1) as nat),
            None => (st, Ok(ValueV::Bool(true))),
        };
        match cr {
            Ok(cv) => if !spec_truthy(cv) {
                (st1, Ok(last))
            } else {
                let (st2, br) = spec_eval_stmt(st1, b, (fuel - 1) as nat);
                match br {
                    Ok(bv) => if st2.ret is Some {
                        (st2, Ok(bv))
                    } else {
                        let (st3, irr) = match incr {
                            Some(e) => spec_eval_expr(st2, e, (fuel - 1) as nat),
                            None => (st2, Ok(bv)),
                        };
                        match irr {
                            Ok(iv) => spec_eval_for(st3, cond, incr, b, iv, (fuel - 1) as nat),
                            Err(er) => (st3, Err(er)),
                        }
                    },
                    Err(er) => (st2, Err(er)),
                }
            },
            Err(er) => (st1, Err(er)),
        }
    }
}

/// Pushing a binding whose value is valid keeps the store valid.
pub proof fn lemma_vars_ok_push(e: EnvV, b: BindingV)
    requires
        vars_ok(e),
        value_ok(b.value, e.parents.len() as int),
    ensures
        vars_ok(EnvV { vars: e.vars.push(b), parents: e.parents }),
{
    let e2 = EnvV { vars: e.vars.push(b), parents: e.parents };
    assert forall|k: int| 0 <= k < e2.vars.len() implies value_ok(
        #[trigger] e2.vars[k].value,
        e2.parents.len() as int,
    ) by {
        if k < e.vars.len() {
            assert(e2.vars[k] == e.vars[k]);
        } else {
            assert(e2.vars[k] == b);
        }
    }
}

/// Opening a scope keeps the store valid and the links well-formed.
pub proof fn lemma_wf_push_scope(e: EnvV, p: Option<usize>)
    requires
        vars_ok(e),
        env_wf(e),
        p matches Some(x) ==> x < e.parents.len(),
    ensures
        vars_ok(EnvV { vars: e.vars, parents: e.parents.push(p) }),
        env_wf(EnvV { vars: e.vars, parents: e.parents.push(p) }),
{
    let e2 = EnvV { vars: e.vars, parents: e.parents.push(p) };
    assert forall|k: int| 0 <= k < e2.vars.len() implies value_ok(
        #[trigger] e2.vars[k].value,
        e2.parents.len() as int,
    ) by {
        assert(value_ok(e.vars[k].value, e.parents.len() as int));
    }
    assert forall|j: int| 0 <= j < e2.parents.len() implies (#[trigger] e2.parents[j] matches Some(
        q,
    ) ==> q < j) by {
        if j < e.parents.len() {
            assert(e2.parents[j] == e.parents[j]);
        } else {
            assert(e2.parents[j] == p);
        }
    }
}

/// Replacing a binding with a valid value keeps the store valid.
pub proof fn lemma_vars_ok_update(e: EnvV, j: int, b: BindingV)
    requires
        vars_ok(e),
        0 <= j < e.vars.len(),
        value_ok(b.value, e.parents.len() as int),
    ensures
        vars_ok(EnvV { vars: e.vars.update(j, b), parents: e.parents }),
{
    let e2 = EnvV { vars: e.vars.update(j, b), parents: e.parents };
    assert forall|k: int| 0 <= k < e2.vars.len() implies value_ok(
        #[trigger] e2.vars[k].value,
        e2.parents.len() as int,
    ) by {
        if k != j {
            assert(e2.vars[k] == e.vars[k]);
        }
    }
}

/// Removing a binding keeps the store valid.
pub proof fn lemma_vars_ok_remove(e: EnvV, j: int)
    requires
        vars_ok(e),
        0 <= j < e.vars.len(),
    ensures
        vars_ok(EnvV { vars: e.vars.remove(j), parents: e.parents }),
{
    let e2 = EnvV { vars: e.vars.remove(j), parents: e.parents };
    assert forall|k: int| 0 <= k < e2.vars.len() implies value_ok(
        #[trigger] e2.vars[k].value,
        e2.parents.len() as int,
    ) by {
        if k < j {
            assert(e2.vars[k] == e.vars[k]);
        } else {
            assert(e2.vars[k] == e.vars[k + 1]);
        }
    }
}

/// A value found in one scope is a stored value, so it is valid.
proof fn lemma_scope_get_ok(vars: Seq<BindingV>, s: usize, name: Seq<u8>, n: int)
    requires
        forall|k: int| 0 <= k < vars.len() ==> value_ok(#[trigger] vars[k].value, n),
    ensures
        spec_scope_get(vars, s, name) matches Some(v) ==> value_ok(v, n),
    decreases vars.len(),
{
    if vars.len() > 0 {
        if !(vars.last().scope == s && vars.last().name == name) {
            assert(forall|k: int|
                0 <= k < vars.drop_last().len() ==> value_ok(
                    #[trigger] vars.drop_last()[k].value,
                    n,
                ));
            lemma_scope_get_ok(vars.drop_last(), s, name, n);
        }
    }
}

/// A value found along a chain is a stored value, so it is valid.
pub proof fn lemma_env_get_ok(e: EnvV, s: usize, name: Seq<u8>)
    requires
        vars_ok(e),
    ensures
        spec_env_get(e, s, name) matches Some(v) ==> value_ok(v, e.parents.len() as int),
    decreases s,
{
    lemma_scope_get_ok(e.vars, s, name, e.parents.len() as int);
    if spec_scope_get(e.vars, s, name) is None && 0 <= s < e.parents.len() {
        match e.parents[s as int] {
            Some(p) => {
                if p < s {
                    lemma_env_get_ok(e, p, name);
                }
            },
            None => {},
        }
    }
}

/// A non-negative holder is a chain scope that indeed holds the name.
pub proof fn lemma_env_holder(e: EnvV, s: usize, name: Seq<u8>)
    ensures
        ({
            let h = crate::env::spec_env_holder(e, s, name);
            h >= 0 ==> h <= s && spec_scope_get(e.vars, h as usize, name) is Some
        }),
    decreases s,
{
    if spec_scope_get(e.vars, s, name) is Some {
    } else if 0 <= s < e.parents.len() {
        match e.parents[s as int] {
            Some(p) => {
                if p < s {
                    lemma_env_holder(e, p, name);
                }
            },
            None => {},
        }
    }
}

/// The bytes repeated once more carry one more copy at the end.
proof fn lemma_repeat_unfold(s: Seq<u8>, n: nat)
    requires
        n > 0,
    ensures
        spec_repeat(s, n) == spec_repeat(s, (n - 1) as nat) + s,
{
}

/// The bytes repeated `n` times, built left to right.
fn repeat_bytes(s: &Vec<u8>, n: usize) -> (r: Vec<u8>)
    ensures
        r@ == spec_repeat(s@, n as nat),
{
    let mut out: Vec<u8> = Vec::new();
    let mut k: usize = 0;
    proof {
        assert(out@ =~= spec_repeat(s@, 0));
    }
    while k < n
        invariant
            k <= n,
            out@ == spec_repeat(s@, k as nat),
        decreases n - k,
    {
        push_all(&mut out, s.as_slice());
        k += 1;
        proof {
            lemma_repeat_unfold(s@, k as nat);
        }
    }
    out
}

/// The value of a unary operator on an evaluated operand.
pub fn unary_value(op: Operator, v: &Value) -> (r: Result<Value, RuntimeError>)
    ensures
        match r {
            Ok(out) => spec_unary_value(op, v@) == Ok::<ValueV, RuntimeErrorV>(out@),
            Err(er) => spec_unary_value(op, v@) == Err::<ValueV, RuntimeErrorV>(er@),
        },
{
    match op {
        Operator::Add => match v {
            Value::Number(n) => Ok(Value::Number(num_abs_bits(*n))),
            Value::String(s) => if s.len() == 0 {
                Ok(Value::Number(0))
            } else {
                match parse_number_bits(s.as_slice()) {
                    Some(b) => Ok(Value::Number(b)),
                    None => Ok(Value::Null),
                }
            },
            Value::Boolean(b) => Ok(
                Value::Number(
                    if *b {
                        NUM_ONE_BITS
                    } else {
                        0
                    },
                ),
            ),
            Value::Null => Ok(Value::Number(0)),
            Value::Function(_) => Err(RuntimeError::Type),
        },
        Operator::Sub => match v {
            Value::Number(n) => Ok(Value::Number(num_neg(*n))),
            Value::String(s) => if s.len() == 0 {
                Ok(Value::Number(0))
            } else {
                match parse_number_bits(s.as_slice()) {
                    Some(b) => Ok(Value::Number(num_neg(b))),
                    None => Ok(Value::Null),
                }
            },
            Value::Boolean(b) => Ok(
                Value::Number(
                    if *b {
                        NUM_NEG_ONE_BITS
                    } else {
                        0
                    },
                ),
            ),
            Value::Null => Ok(Value::Number(0)),
            Value::Function(_) => Err(RuntimeError::Type),
        },
        Operator::Not => Ok(Value::Boolean(!truthy(v))),
        _ => Err(RuntimeError::Type),
    }
}

/// The value of a binary operator on evaluated operands.
pub fn binary_value(op: Operator, a: &Value, b: &Value) -> (r: Result<Value, RuntimeError>)
    ensures
        match r {
            Ok(out) => spec_binary_value(op, a@, b@) == Ok::<ValueV, RuntimeErrorV>(out@),
            Err(er) => spec_binary_value(op, a@, b@) == Err::<ValueV, RuntimeErrorV>(er@),
        },
{
    match op {
        Operator::EqEq => Ok(Value::Boolean(value_eq(a, b))),
        Operator::NotEq => Ok(Value::Boolean(!value_eq(a, b))),
        Operator::Gt => match (a, b) {
            (Value::Number(x), Value::Number(y)) => Ok(Value::Boolean(num_lt(*y, *x))),
            _ => Err(RuntimeError::Type),
        },
        Operator::Gte => match (a, b) {
            (Value::Number(x), Value::Number(y)) => Ok(Value::Boolean(num_le(*y, *x))),
            _ => Err(RuntimeError::Type),
        },
        Operator::Lt => match (a, b) {
            (Value::Number(x), Value::Number(y)) => Ok(Value::Boolean(num_lt(*x, *y))),
            _ => Err(RuntimeError::Type),
        },
        Operator::Lte => match (a, b) {
            (Value::Number(x), Value::Number(y)) => Ok(Value::Boolean(num_le(*x, *y))),
            _ => Err(RuntimeError::Type),
        },
        Operator::Add => match (a, b) {
            (Value::Number(x), Value::Number(y)) => Ok(Value::Number(add_bits(*x, *y))),
            (Value::String(x), Value::String(y)) => {
                let mut out = crate::token_type::bytes_clone(x);
                push_all(&mut out, y.as_slice());
                Ok(Value::String(out))
            },
            _ => Err(RuntimeError::Type),
        },
        Operator::Sub => match (a, b) {
            (Value::Number(x), Value::Number(y)) => Ok(Value::Number(sub_bits(*x, *y))),
            _ => Err(RuntimeError::Type),
        },
        Operator::Mul => match (a, b) {
            (Value::Number(x), Value::Number(y)) => Ok(Value::Number(mul_bits(*x, *y))),
            (Value::Number(n), Value::String(s)) => Ok(
                Value::String(repeat_bytes(s, round_count(*n))),
            ),
            (Value::String(s), Value::Number(n)) => Ok(
                Value::String(repeat_bytes(s, round_count(*n))),
            ),
            _ => Err(RuntimeError::Type),
        },
        Operator::Div => match (a, b) {
            (Value::Number(x), Value::Number(y)) => Ok(Value::Number(div_bits(*x, *y))),
            _ => Err(RuntimeError::Type),
        },
        _ => Err(RuntimeError::Type),
    }
}

/// The evaluator: the scope arena, the global and current scope handles,
/// the lines printed so far, the pending return value, and the wall-time
/// reading the `clock` native hands out.
#[derive(Debug)]
pub struct Interperter {
    env: Env,
    global: usize,
    local: usize,
    output: Vec<Vec<u8>>,
    ret: Option<Value>,
    clock_now: u64,
}

impl View for Interperter {
    type V = InterpV;

    closed spec fn view(&self) -> InterpV {
        InterpV {
            env: self.env@,
            global: self.global,
            local: self.local,
            output: self.output@.map_values(|v: Vec<u8>| v@),
            ret: match self.ret {
                Some(v) => Some(v@),
                None => None,
            },
            clock_now: self.clock_now,
        }
    }
}

/// The name of the one built-in native function.
pub open spec fn spec_clock_name() -> Seq<u8> {
    seq![99u8, 108u8, 111u8, 99u8, 107u8]
}

impl Interperter {
    /// A fresh evaluator: scope 0 is the global scope holding the `clock`
    /// native, scope 1 the empty top-level local scope.
    pub fn new() -> (r: Interperter)
        ensures
            interp_wf(r@),
            r@.global == 0,
            r@.local == 1,
            r@.env.parents == seq![None::<usize>, None::<usize>],
            r@.env.vars == seq![
                BindingV {
                    scope: 0,
                    name: spec_clock_name(),
                    value: ValueV::Function(
                        CallableV::Native(
                            NativeFnV { name: spec_clock_name(), arity: 0, kind: NativeKind::Clock },
                        ),
                    ),
                },
            ],
            r@.output == Seq::<Seq<u8>>::empty(),
            r@.ret is None,
            r@.clock_now == 0,
    {
        let mut env = Env::new();
        let g = env.push_scope(None);
        let l = env.push_scope(None);
        let mut name: Vec<u8> = Vec::new();
        name.push(99);
        name.push(108);
        name.push(111);
        name.push(99);
        name.push(107);
        proof {
            assert(name@ =~= spec_clock_name());
        }
        let name2 = bytes_clone(&name);
        env.define(g, name, Value::Function(Callable::Native(NativeFn::new(name2, 0, NativeKind::Clock))));
        let r = Interperter { env, global: g, local: l, output: Vec::new(), ret: None, clock_now: 0 };
        proof {
            assert(r@.env.parents =~= seq![None::<usize>, None::<usize>]);
            assert(r@.output =~= Seq::<Seq<u8>>::empty());
        }
        r
    }

    /// Samples the wall clock; the `clock` native hands out this reading
    /// until the next refresh. Nothing is known of the value sampled.
    pub fn refresh_clock(&mut self)
        ensures
            final(self)@ == (InterpV { clock_now: final(self)@.clock_now, ..old(self)@ }),
    {
        self.clock_now = clock_seconds();
    }

    /// The lines printed so far, oldest first.
    pub fn output(&self) -> (r: &Vec<Vec<u8>>)
        ensures
            r@.map_values(|v: Vec<u8>| v@) == self@.output,
    {
        &self.output
    }
}

impl Default for Interperter {
    /// A fresh evaluator, as `new` builds it.
    fn default() -> (r: Interperter)
        ensures
            interp_wf(r@),
    {
        Interperter::new()
    }
}


impl Interperter {
    /// The variable lookup an expression performs: local chain, then global.
    fn lookup(&self, name: &Vec<u8>) -> (r: Option<Value>)
        requires
            interp_wf(self@),
        ensures
            match r {
                Some(v) => spec_lookup(self@, name@) == Some(v@) && value_ok(
                    v@,
                    self@.env.parents.len() as int,
                ),
                None => spec_lookup(self@, name@) is None,
            },
    {
        proof {
            lemma_env_get_ok(self@.env, self@.local, name@);
            lemma_env_get_ok(self@.env, self@.global, name@);
        }
        match self.env.get(self.local, name) {
            Some(v) => Some(v),
            None => self.env.get(self.global, name),
        }
    }

    #[verifier::spinoff_prover]
    #[verifier::rlimit(100)]
    fn expr_fuel(&mut self, e: &Expr, fuel: u64) -> (r: Result<Value, RuntimeError>)
        requires
            interp_wf(old(self)@),
        ensures
            ({
                let (s2, sr) = spec_eval_expr(old(self)@, expr_view(*e), fuel as nat);
                &&& final(self)@ == s2
                &&& interp_wf(final(self)@)
                &&& old(self)@.env.parents.len() <= final(self)@.env.parents.len()
                &&& match r {
                    Ok(v) => sr == Ok::<ValueV, RuntimeErrorV>(v@) && value_ok(
                        v@,
                        final(self)@.env.parents.len() as int,
                    ),
                    Err(er) => sr == Err::<ValueV, RuntimeErrorV>(er@),
                }
            }),
        decreases fuel,
    {
        if fuel == 0 {
            return Err(RuntimeError::Other);
        }
        match e {
            Expr::Literal(l) => {
                let v = match l {
                    crate::token_type::Literal::Number(b) => Value::Number(*b),
                    crate::token_type::Literal::String(sb) => Value::String(bytes_clone(sb)),
                    crate::token_type::Literal::Boolean(b) => Value::Boolean(*b),
                    crate::token_type::Literal::Null => Value::Null,
                };
                Ok(v)
            },
            Expr::Variable(name) => match self.lookup(name) {
                Some(v) => Ok(v),
                None => Err(RuntimeError::Resolve(bytes_clone(name))),
            },
            Expr::Assign(name, val) => {
                match self.expr_fuel(val, fuel - 1) {
                    Ok(v) => {
                        let ghost env0 = self@.env;
                        let v2 = value_clone(&v);
                        let loc = self.local;
                        let ok = self.env.redefine(loc, name, v2);
                        if ok {
                            proof {
                                let holder = crate::env::spec_env_holder(env0, loc, name@);
                                lemma_env_holder(env0, loc, name@);
                                if holder >= 0 {
                                    lemma_scope_idx(env0.vars, holder as usize, name@);
                                    lemma_vars_ok_update(
                                        env0,
                                        spec_scope_idx(env0.vars, holder as usize, name@),
                                        BindingV { scope: holder as usize, name: name@, value: v@ },
                                    );
                                }
                            }
                            Ok(v)
                        } else {
                            Err(RuntimeError::Resolve(bytes_clone(name)))
                        }
                    },
                    Err(er) => Err(er),
                }
            },
            Expr::Grouping(inner) => self.expr_fuel(inner, fuel - 1),
            Expr::Unary(op, rr) => {
                match self.expr_fuel(rr, fuel - 1) {
                    Ok(v) => {
                        proof {
                            lemma_op_values_plain(
                                *op,
                                v@,
                                v@,
                                final(self)@.env.parents.len() as int,
                            );
                        }
                        unary_value(*op, &v)
                    },
                    Err(er) => Err(er),
                }
            },
            Expr::Binary(l, op, rr) => {
                match self.expr_fuel(l, fuel - 1) {
                    Ok(lv) => match self.expr_fuel(rr, fuel - 1) {
                        Ok(rv) => {
                            proof {
                                lemma_op_values_plain(
                                    *op,
                                    lv@,
                                    rv@,
                                    final(self)@.env.parents.len() as int,
                                );
                            }
                            binary_value(*op, &lv, &rv)
                        },
                        Err(er) => Err(er),
                    },
                    Err(er) => Err(er),
                }
            },
            Expr::Logical(l, op, rr) => {
                match self.expr_fuel(l, fuel - 1) {
                    Ok(lv) => match op {
                        Operator::Or => {
                            if truthy(&lv) {
                                Ok(lv)
                            } else {
                                self.expr_fuel(rr, fuel - 1)
                            }
                        },
                        Operator::And => {
                            if truthy(&lv) {
                                self.expr_fuel(rr, fuel - 1)
                            } else {
                                Ok(lv)
                            }
                        },
                        _ => Err(RuntimeError::Type),
                    },
                    Err(er) => Err(er),
                }
            },
            Expr::Call(callee, args) => {
                match self.expr_fuel(callee, fuel - 1) {
                    Ok(cv) => {
                        let empty_args: Vec<Value> = Vec::new();
                        proof {
                            crate::expr::lemma_exprs_view(args@);
                            assert(exprs_view(args@).skip(0) =~= exprs_view(args@));
                            assert(empty_args@.map_values(|v: Value| v@)
                                =~= Seq::<ValueV>::empty());
                        }
                        match self.eval_args(args, 0, Ghost(Seq::empty()), empty_args, fuel - 1) {
                            Ok(avs) => {
                                let ghost avsv = avs@.map_values(|v: Value| v@);
                                proof {
                                    assert forall|k: int| 0 <= k < avs@.len() implies value_ok(
                                        (#[trigger] avs@[k])@,
                                        self@.env.parents.len() as int,
                                    ) by {
                                        assert(avsv[k] == avs@[k]@);
                                    }
                                }
                                self.call_fn(Ghost(cv@), cv, Ghost(avsv), avs, fuel - 1)
                            },
                            Err(er) => Err(er),
                        }
                    },
                    Err(er) => Err(er),
                }
            },
        }
    }

    #[verifier::spinoff_prover]
    #[verifier::rlimit(100)]
    fn eval_args(
        &mut self,
        es: &Vec<Expr>,
        idx: usize,
        Ghost(accv): Ghost<Seq<ValueV>>,
        acc: Vec<Value>,
        fuel: u64,
    ) -> (r: Result<Vec<Value>, RuntimeError>)
        requires
            interp_wf(old(self)@),
            idx <= es@.len(),
            accv == acc@.map_values(|v: Value| v@),
            forall|k: int|
                0 <= k < acc@.len() ==> value_ok(
                    (#[trigger] acc@[k])@,
                    old(self)@.env.parents.len() as int,
                ),
        ensures
            ({
                let (s2, sr) = spec_eval_args(
                    old(self)@,
                    exprs_view(es@).skip(idx as int),
                    accv,
                    fuel as nat,
                );
                &&& final(self)@ == s2
                &&& interp_wf(final(self)@)
                &&& old(self)@.env.parents.len() <= final(self)@.env.parents.len()
                &&& match r {
                    Ok(out) => sr == Ok::<Seq<ValueV>, RuntimeErrorV>(
                        out@.map_values(|v: Value| v@),
                    ) && forall|k: int|
                        0 <= k < out@.len() ==> value_ok(
                            (#[trigger] out@[k])@,
                            final(self)@.env.parents.len() as int,
                        ),
                    Err(er) => sr == Err::<Seq<ValueV>, RuntimeErrorV>(er@),
                }
            }),
        decreases fuel,
    {
        proof {
            crate::expr::lemma_exprs_view(es@);
        }
        if fuel == 0 {
            return Err(RuntimeError::Other);
        }
        if idx >= es.len() {
            proof {
                assert(exprs_view(es@).skip(idx as int).len() == 0);
                assert forall|k: int| 0 <= k < acc@.len() implies value_ok(
                    (#[trigger] acc@[k])@,
                    self@.env.parents.len() as int,
                ) by {
                    assert(accv[k] == acc@[k]@);
                }
            }
            return Ok(acc);
        }
        proof {
            assert(exprs_view(es@).skip(idx as int)[0] == expr_view(es@[idx as int]));
        }
        match self.expr_fuel(&es[idx], fuel - 1) {
            Ok(v) => {
                let ghost acc0 = acc@;
                let ghost vv = v@;
                let mut acc2 = acc;
                acc2.push(v);
                proof {
                    assert(acc2@.map_values(|v: Value| v@) =~= accv.push(vv));
                    assert(exprs_view(es@).skip(idx as int).skip(1) =~= exprs_view(es@).skip(
                        idx as int + 1,
                    ));
                    assert forall|k: int| 0 <= k < accv.push(vv).len() implies value_ok(
                        #[trigger] accv.push(vv)[k],
                        self@.env.parents.len() as int,
                    ) by {
                        if k < accv.len() {
                            assert(accv.push(vv)[k] == accv[k]);
                        } else {
                            assert(accv.push(vv)[k] == vv);
                        }
                    }
                }
                self.eval_args(es, idx + 1, Ghost(accv.push(vv)), acc2, fuel - 1)
            },
            Err(er) => Err(er),
        }
    }

    #[verifier::spinoff_prover]
    #[verifier::rlimit(100)]
    fn bind_params(&mut self, scope: usize, inputs: &Vec<Expr>, args: &Vec<Value>) -> (r: bool)
        requires
            env_wf(old(self)@.env),
            vars_ok(old(self)@.env),
            forall|k: int|
                0 <= k < args@.len() ==> value_ok(
                    (#[trigger] args@[k])@,
                    old(self)@.env.parents.len() as int,
                ),
        ensures
            ({
                let (e2, ok) = spec_bind_params(
                    old(self)@.env,
                    scope,
                    exprs_view(inputs@),
                    args@.map_values(|v: Value| v@),
                );
                &&& final(self)@ == (InterpV { env: e2, ..old(self)@ })
                &&& r == ok
                &&& e2.parents == old(self)@.env.parents
                &&& vars_ok(final(self)@.env)
                &&& env_wf(final(self)@.env)
            }),
    {
        let ghost iv = exprs_view(inputs@);
        let ghost av = args@.map_values(|v: Value| v@);
        proof {
            crate::expr::lemma_exprs_view(inputs@);
        }
        let mut i: usize = 0;
        let ghost mut avrest = av;
        proof {
            assert(iv.skip(0) =~= iv);
        }
        while i < inputs.len()
            invariant
                i <= inputs@.len(),
                iv == exprs_view(inputs@),
                iv.len() == inputs@.len(),
                forall|k: int| 0 <= k < iv.len() ==> iv[k] == expr_view(inputs@[k]),
                av == args@.map_values(|v: Value| v@),
                forall|k: int|
                    0 <= k < av.len() ==> value_ok(
                        #[trigger] av[k],
                        old(self)@.env.parents.len() as int,
                    ),
                avrest == (if i as int <= av.len() {
                    av.skip(i as int)
                } else {
                    av.skip(av.len() as int)
                }),
                env_wf(self@.env),
                vars_ok(self@.env),
                self@.env.parents == old(self)@.env.parents,
                self@.global == old(self)@.global,
                self@.local == old(self)@.local,
                self@.output == old(self)@.output,
                self@.ret == old(self)@.ret,
                self@.clock_now == old(self)@.clock_now,
                spec_bind_params(old(self)@.env, scope, iv, av) == spec_bind_params(
                    self@.env,
                    scope,
                    iv.skip(i as int),
                    avrest,
                ),
            decreases inputs@.len() - i,
        {
            proof {
                assert(iv.skip(i as int)[0] == expr_view(inputs@[i as int]));
            }
            match &inputs[i] {
                Expr::Variable(p) => {
                    let arg: Value = if i < args.len() {
                        value_clone(&args[i])
                    } else {
                        Value::Null
                    };
                    let ghost env_before = self@.env;
                    let pname = bytes_clone(p);
                    self.env.define(scope, pname, arg);
                    proof {
                        if i < args.len() {
                            assert(avrest[0] == av[i as int]);
                        }
                        lemma_vars_ok_push(
                            env_before,
                            BindingV {
                                scope,
                                name: p@,
                                value: (if avrest.len() > 0 {
                                    avrest[0]
                                } else {
                                    ValueV::Null
                                }),
                            },
                        );
                        assert(iv.skip(i as int).skip(1) =~= iv.skip(i as int + 1));
                        if avrest.len() > 0 {
                            avrest = avrest.skip(1);
                        }
                        if i as int + 1 <= av.len() {
                            assert(avrest =~= av.skip(i as int + 1));
                        } else {
                            assert(avrest =~= av.skip(av.len() as int));
                        }
                    }
                    i += 1;
                },
                _ => {
                    return false;
                },
            }
        }
        proof {
            assert(iv.skip(i as int).len() == 0);
        }
        true
    }

    #[verifier::spinoff_prover]
    #[verifier::rlimit(100)]
    fn call_fn(
        &mut self,
        Ghost(cvv): Ghost<ValueV>,
        cv: Value,
        Ghost(argsv): Ghost<Seq<ValueV>>,
        args: Vec<Value>,
        fuel: u64,
    ) -> (r: Result<Value, RuntimeError>)
        requires
            interp_wf(old(self)@),
            cvv == cv@,
            argsv == args@.map_values(|v: Value| v@),
            value_ok(cvv, old(self)@.env.parents.len() as int),
            forall|k: int|
                0 <= k < args@.len() ==> value_ok(
                    (#[trigger] args@[k])@,
                    old(self)@.env.parents.len() as int,
                ),
        ensures
            ({
                let (s2, sr) = spec_call_fn(old(self)@, cvv, argsv, fuel as nat);
                &&& final(self)@ == s2
                &&& interp_wf(final(self)@)
                &&& old(self)@.env.parents.len() <= final(self)@.env.parents.len()
                &&& match r {
                    Ok(v) => sr == Ok::<ValueV, RuntimeErrorV>(v@) && value_ok(
                        v@,
                        final(self)@.env.parents.len() as int,
                    ),
                    Err(er) => sr == Err::<ValueV, RuntimeErrorV>(er@),
                }
            }),
        decreases fuel,
    {
        if fuel == 0 {
            return Err(RuntimeError::Other);
        }
        match cv {
            Value::Function(Callable::Native(n)) => match n.kind() {
                NativeKind::Clock => Ok(Value::Number(u64_to_number_bits(self.clock_now))),
            },
            Value::Function(Callable::Custom(f)) => {
                let ghost st0 = self@;
                let closure = f.closure();
                let ns = self.env.push_scope(Some(closure));
                proof {
                    lemma_wf_push_scope(st0.env, Some(closure));
                }
                let okb = self.bind_params(ns, f.inputs(), &args);
                if !okb {
                    return Err(RuntimeError::Type);
                }
                let ghost env2 = self@.env;
                let fname = f.name_bytes();
                let stored = Value::Function(
                    Callable::Custom(
                        CustomFn::new(
                            f.name_bytes(),
                            crate::expr::exprs_clone(f.inputs()),
                            Box::new(crate::stmt::stmt_clone(f.body())),
                            closure,
                        ),
                    ),
                );
                proof {
                    lemma_vars_ok_push(
                        env2,
                        BindingV {
                            scope: ns,
                            name: f@.name,
                            value: ValueV::Function(CallableV::Custom(f@)),
                        },
                    );
                }
                self.env.define(ns, fname, stored);
                let saved_local = self.local;
                let saved_ret: Option<Value> = match &self.ret {
                    Some(v) => Some(value_clone(v)),
                    None => None,
                };
                self.local = ns;
                self.ret = None;
                let br = self.stmt_fuel(f.body(), fuel - 1);
                let inner: Option<Value> = match &self.ret {
                    Some(v) => Some(value_clone(v)),
                    None => None,
                };
                self.local = saved_local;
                self.ret = saved_ret;
                match br {
                    Ok(bv) => match inner {
                        Some(v) => Ok(v),
                        None => Ok(bv),
                    },
                    Err(er) => Err(er),
                }
            },
            _ => Err(RuntimeError::Type),
        }
    }
}


impl Interperter {
    #[verifier::spinoff_prover]
    #[verifier::rlimit(100)]
    fn stmt_fuel(&mut self, s: &Stmt, fuel: u64) -> (r: Result<Value, RuntimeError>)
        requires
            interp_wf(old(self)@),
        ensures
            ({
                let (s2, sr) = spec_eval_stmt(old(self)@, stmt_view(*s), fuel as nat);
                &&& final(self)@ == s2
                &&& interp_wf(final(self)@)
                &&& old(self)@.env.parents.len() <= final(self)@.env.parents.len()
                &&& match r {
                    Ok(v) => sr == Ok::<ValueV, RuntimeErrorV>(v@) && value_ok(
                        v@,
                        final(self)@.env.parents.len() as int,
                    ),
                    Err(er) => sr == Err::<ValueV, RuntimeErrorV>(er@),
                }
            }),
        decreases fuel,
    {
        if fuel == 0 {
            return Err(RuntimeError::Other);
        }
        match s {
            Stmt::Expression(e) => self.expr_fuel(e, fuel - 1),
            Stmt::Print(e) => {
                match self.expr_fuel(e, fuel - 1) {
                    Ok(v) => {
                        let line = display_value(&v);
                        let ghost o0 = self@.output;
                        self.output.push(line);
                        proof {
                            assert(self@.output =~= o0.push(spec_display(v@)));
                        }
                        Ok(v)
                    },
                    Err(er) => Err(er),
                }
            },
            Stmt::Var(name, init) => {
                let rv: Result<Value, RuntimeError> = match init {
                    Some(e) => self.expr_fuel(e, fuel - 1),
                    None => Ok(Value::Null),
                };
                match rv {
                    Ok(v) => {
                        let ghost env0 = self@.env;
                        let v2 = value_clone(&v);
                        let loc = self.local;
                        self.env.define(loc, bytes_clone(name), v2);
                        proof {
                            lemma_vars_ok_push(
                                env0,
                                BindingV { scope: loc, name: name@, value: v@ },
                            );
                        }
                        Ok(v)
                    },
                    Err(er) => Err(er),
                }
            },
            Stmt::Block(list) => {
                let ghost st0 = self@;
                let loc = self.local;
                let ns = self.env.push_scope(Some(loc));
                proof {
                    lemma_wf_push_scope(st0.env, Some(loc));
                }
                self.local = ns;
                let r = self.block_fuel(list, fuel - 1);
                self.local = loc;
                r
            },
            Stmt::If(c, t, eo) => {
                match self.expr_fuel(c, fuel - 1) {
                    Ok(cvv) => {
                        if truthy(&cvv) {
                            self.stmt_fuel(t, fuel - 1)
                        } else {
                            match eo {
                                Some(eb) => self.stmt_fuel(eb, fuel - 1),
                                None => Ok(Value::Null),
                            }
                        }
                    },
                    Err(er) => Err(er),
                }
            },
            Stmt::While(c, b) => self.while_fuel(c, b, fuel - 1),
            Stmt::For(init, cond, incr, b) => {
                let ir: Result<Value, RuntimeError> = match init {
                    Some(is) => self.stmt_fuel(is, fuel - 1),
                    None => Ok(Value::Null),
                };
                match ir {
                    Ok(_) => {
                        match self.for_fuel(cond, incr, b, fuel - 1) {
                            Ok(v) => {
                                match init {
                                    Some(is) => {
                                        match &**is {
                                            Stmt::Var(n, _) => {
                                                let ghost env0 = self@.env;
                                                let loc = self.local;
                                                proof {
                                                    lemma_scope_idx(env0.vars, loc, n@);
                                                    if spec_scope_idx(env0.vars, loc, n@) >= 0 {
                                                        lemma_vars_ok_remove(
                                                            env0,
                                                            spec_scope_idx(env0.vars, loc, n@),
                                                        );
                                                    }
                                                }
                                                let _ = self.env.remove(loc, n);
                                            },
                                            _ => {},
                                        }
                                    },
                                    None => {},
                                }
                                Ok(v)
                            },
                            Err(er) => Err(er),
                        }
                    },
                    Err(er) => Err(er),
                }
            },
            Stmt::Function(name, params, body) => {
                let ghost env0 = self@.env;
                let loc = self.local;
                let stored = Value::Function(
                    Callable::Custom(
                        CustomFn::new(
                            bytes_clone(name),
                            crate::expr::exprs_clone(params),
                            Box::new(crate::stmt::stmt_clone(body)),
                            loc,
                        ),
                    ),
                );
                proof {
                    lemma_vars_ok_push(
                        env0,
                        BindingV {
                            scope: loc,
                            name: name@,
                            value: ValueV::Function(
                                CallableV::Custom(
                                    CustomFnV {
                                        name: name@,
                                        inputs: exprs_view(params@),
                                        body: stmt_view(**body),
                                        closure: loc,
                                    },
                                ),
                            ),
                        },
                    );
                }
                self.env.define(loc, bytes_clone(name), stored);
                Ok(Value::Null)
            },
            Stmt::Return(e) => {
                match self.expr_fuel(e, fuel - 1) {
                    Ok(v) => {
                        self.ret = Some(value_clone(&v));
                        Ok(v)
                    },
                    Err(er) => Err(er),
                }
            },
        }
    }

    #[verifier::spinoff_prover]
    #[verifier::rlimit(100)]
    fn block_fuel(&mut self, list: &Vec<Stmt>, fuel: u64) -> (r: Result<Value, RuntimeError>)
        requires
            interp_wf(old(self)@),
        ensures
            ({
                let (s2, sr) = spec_eval_block(
                    old(self)@,
                    stmts_view(list@),
                    ValueV::Null,
                    fuel as nat,
                );
                &&& final(self)@ == s2
                &&& interp_wf(final(self)@)
                &&& old(self)@.env.parents.len() <= final(self)@.env.parents.len()
                &&& match r {
                    Ok(v) => sr == Ok::<ValueV, RuntimeErrorV>(v@) && value_ok(
                        v@,
                        final(self)@.env.parents.len() as int,
                    ),
                    Err(er) => sr == Err::<ValueV, RuntimeErrorV>(er@),
                }
            }),
        decreases fuel,
    {
        let ghost lv = stmts_view(list@);
        proof {
            crate::stmt::lemma_stmts_view(list@);
            assert(lv.skip(0) =~= lv);
        }
        let mut last = Value::Null;
        let mut f: u64 = fuel;
        let mut i: usize = 0;
        loop
            invariant
                i <= list@.len(),
                lv == stmts_view(list@),
                lv.len() == list@.len(),
                forall|k: int| 0 <= k < lv.len() ==> lv[k] == stmt_view(list@[k]),
                f <= fuel,
                interp_wf(self@),
                old(self)@.env.parents.len() <= self@.env.parents.len(),
                value_ok(last@, self@.env.parents.len() as int),
                spec_eval_block(old(self)@, lv, ValueV::Null, fuel as nat) == spec_eval_block(
                    self@,
                    lv.skip(i as int),
                    last@,
                    f as nat,
                ),
            decreases f,
        {
            if f == 0 {
                return Err(RuntimeError::Other);
            }
            if i >= list.len() {
                proof {
                    assert(lv.skip(i as int).len() == 0);
                }
                return Ok(last);
            }
            proof {
                assert(lv.skip(i as int)[0] == stmt_view(list@[i as int]));
                assert(lv.skip(i as int).skip(1) =~= lv.skip(i as int + 1));
            }
            match self.stmt_fuel(&list[i], f - 1) {
                Ok(v) => {
                    let stop = match &self.ret {
                        Some(_) => true,
                        None => false,
                    };
                    if stop {
                        return Ok(v);
                    }
                    last = v;
                    i += 1;
                    f = f - 1;
                },
                Err(er) => {
                    return Err(er);
                },
            }
        }
    }

    #[verifier::spinoff_prover]
    #[verifier::rlimit(100)]
    fn while_fuel(&mut self, c: &Expr, b: &Stmt, fuel: u64) -> (r: Result<Value, RuntimeError>)
        requires
            interp_wf(old(self)@),
        ensures
            ({
                let (s2, sr) = spec_eval_while(
                    old(self)@,
                    expr_view(*c),
                    stmt_view(*b),
                    ValueV::Null,
                    fuel as nat,
                );
                &&& final(self)@ == s2
                &&& interp_wf(final(self)@)
                &&& old(self)@.env.parents.len() <= final(self)@.env.parents.len()
                &&& match r {
                    Ok(v) => sr == Ok::<ValueV, RuntimeErrorV>(v@) && value_ok(
                        v@,
                        final(self)@.env.parents.len() as int,
                    ),
                    Err(er) => sr == Err::<ValueV, RuntimeErrorV>(er@),
                }
            }),
        decreases fuel,
    {
        let mut last = Value::Null;
        let mut f: u64 = fuel;
        loop
            invariant
                f <= fuel,
                interp_wf(self@),
                old(self)@.env.parents.len() <= self@.env.parents.len(),
                value_ok(last@, self@.env.parents.len() as int),
                spec_eval_while(
                    old(self)@,
                    expr_view(*c),
                    stmt_view(*b),
                    ValueV::Null,
                    fuel as nat,
                ) == spec_eval_while(self@, expr_view(*c), stmt_view(*b), last@, f as nat),
            decreases f,
        {
            if f == 0 {
                return Err(RuntimeError::Other);
            }
            match self.expr_fuel(c, f - 1) {
                Ok(cvv) => {
                    if !truthy(&cvv) {
                        return Ok(last);
                    }
                    match self.stmt_fuel(b, f - 1) {
                        Ok(bv) => {
                            let stop = match &self.ret {
                                Some(_) => true,
                                None => false,
                            };
                            if stop {
                                return Ok(bv);
                            }
                            last = bv;
                            f = f - 1;
                        },
                        Err(er) => {
                            return Err(er);
                        },
                    }
                },
                Err(er) => {
                    return Err(er);
                },
            }
        }
    }

    #[verifier::spinoff_prover]
    #[verifier::rlimit(100)]
    fn for_fuel(
        &mut self,
        cond: &Option<Expr>,
        incr: &Option<Expr>,
        b: &Stmt,
        fuel: u64,
    ) -> (r: Result<Value, RuntimeError>)
        requires
            interp_wf(old(self)@),
        ensures
            ({
                let (s2, sr) = spec_eval_for(
                    old(self)@,
                    crate::stmt::opt_expr_view(*cond),
                    crate::stmt::opt_expr_view(*incr),
                    stmt_view(*b),
                    ValueV::Null,
                    fuel as nat,
                );
                &&& final(self)@ == s2
                &&& interp_wf(final(self)@)
                &&& old(self)@.env.parents.len() <= final(self)@.env.parents.len()
                &&& match r {
                    Ok(v) => sr == Ok::<ValueV, RuntimeErrorV>(v@) && value_ok(
                        v@,
                        final(self)@.env.parents.len() as int,
                    ),
                    Err(er) => sr == Err::<ValueV, RuntimeErrorV>(er@),
                }
            }),
        decreases fuel,
    {
        let mut last = Value::Null;
        let mut f: u64 = fuel;
        loop
            invariant
                f <= fuel,
                interp_wf(self@),
                old(self)@.env.parents.len() <= self@.env.parents.len(),
                value_ok(last@, self@.env.parents.len() as int),
                spec_eval_for(
                    old(self)@,
                    crate::stmt::opt_expr_view(*cond),
                    crate::stmt::opt_expr_view(*incr),
                    stmt_view(*b),
                    ValueV::Null,
                    fuel as nat,
                ) == spec_eval_for(
                    self@,
                    crate::stmt::opt_expr_view(*cond),
                    crate::stmt::opt_expr_view(*incr),
                    stmt_view(*b),
                    last@,
                    f as nat,
                ),
            decreases f,
        {
            if f == 0 {
                return Err(RuntimeError::Other);
            }
            let cr: Result<Value, RuntimeError> = match cond {
                Some(ce) => self.expr_fuel(ce, f - 1),
                None => Ok(Value::Boolean(true)),
            };
            match cr {
                Ok(cvv) => {
                    if !truthy(&cvv) {
                        return Ok(last);
                    }
                    match self.stmt_fuel(b, f - 1) {
                        Ok(bv) => {
                            let stop = match &self.ret {
                                Some(_) => true,
                                None => false,
                            };
                            if stop {
                                return Ok(bv);
                            }
                            let irr: Result<Value, RuntimeError> = match incr {
                                Some(ie) => self.expr_fuel(ie, f - 1),
                                None => Ok(bv),
                            };
                            match irr {
                                Ok(iv) => {
                                    last = iv;
                                    f = f - 1;
                                },
                                Err(er) => {
                                    return Err(er);
                                },
                            }
                        },
                        Err(er) => {
                            return Err(er);
                        },
                    }
                },
                Err(er) => {
                    return Err(er);
                },
            }
        }
    }

    /// Evaluates one expression, as `spec_eval_expr` with the standard fuel
    /// says.
    pub fn expr(&mut self, e: &Expr) -> (r: Result<Value, RuntimeError>)
        requires
            interp_wf(old(self)@),
        ensures
            ({
                let (s2, sr) = spec_eval_expr(old(self)@, expr_view(*e), EVAL_FUEL as nat);
                &&& final(self)@ == s2
                &&& interp_wf(final(self)@)
                &&& match r {
                    Ok(v) => sr == Ok::<ValueV, RuntimeErrorV>(v@),
                    Err(er) => sr == Err::<ValueV, RuntimeErrorV>(er@),
                }
            }),
    {
        self.expr_fuel(e, EVAL_FUEL)
    }

    /// Evaluates one statement, as `spec_eval_stmt` with the standard fuel
    /// says.
    pub fn stmt(&mut self, s: &Stmt) -> (r: Result<Value, RuntimeError>)
        requires
            interp_wf(old(self)@),
        ensures
            ({
                let (s2, sr) = spec_eval_stmt(old(self)@, stmt_view(*s), EVAL_FUEL as nat);
                &&& final(self)@ == s2
                &&& interp_wf(final(self)@)
                &&& match r {
                    Ok(v) => sr == Ok::<ValueV, RuntimeErrorV>(v@),
                    Err(er) => sr == Err::<ValueV, RuntimeErrorV>(er@),
                }
            }),
    {
        self.stmt_fuel(s, EVAL_FUEL)
    }
}


} // verus!
