//! Runtime values: literals, native functions and user-defined functions
//! with captured scopes.
use vstd::prelude::*;

use crate::expr::Expr;
use crate::expr::ExprV;
use crate::expr::exprs_clone;
use crate::expr::exprs_eq;
use crate::expr::exprs_view;
use crate::numbers::number_text;
use crate::numbers::number_text_bytes;
use crate::numbers::spec_num_eq;
use crate::numbers::spec_num_truthy;
use crate::numbers::num_eq;
use crate::numbers::num_truthy;
use crate::stmt::Stmt;
use crate::stmt::StmtV;
use crate::stmt::stmt_clone;
use crate::stmt::stmt_eq;
use crate::token_type::bytes_clone;
use crate::token_type::bytes_eq;

verus! {

/// The host operations a native function can stand for.
#[derive(Clone, Copy, Debug, PartialEq, Eq, Structural)]
pub enum NativeKind {
    /// Wall time in whole seconds since the Unix epoch.
    Clock,
}

/// A host-implemented function: a display name, an advisory arity, and the
/// host operation it performs.
#[derive(Debug)]
pub struct NativeFn {
    name: Vec<u8>,
    arity: usize,
    kind: NativeKind,
}

/// The mathematical shape of a native function.
pub struct NativeFnV {
    pub name: Seq<u8>,
    pub arity: usize,
    pub kind: NativeKind,
}

impl View for NativeFn {
    type V = NativeFnV;

    closed spec fn view(&self) -> NativeFnV {
        NativeFnV { name: self.name@, arity: self.arity, kind: self.kind }
    }
}

impl NativeFn {
    pub fn new(name: Vec<u8>, arity: usize, kind: NativeKind) -> (r: NativeFn)
        ensures
            r@ == (NativeFnV { name: name@, arity, kind }),
    {
        NativeFn { name, arity, kind }
    }

    /// The display name of the native function.
    pub fn get_name(&self) -> (r: Vec<u8>)
        ensures
            r@ == self@.name,
    {
        bytes_clone(&self.name)
    }

    /// The host operation.
    pub fn kind(&self) -> (r: NativeKind)
        ensures
            r == self@.kind,
    {
        self.kind
    }

    /// The advisory arity.
    pub fn arity_of(&self) -> (r: usize)
        ensures
            r == self@.arity,
    {
        self.arity
    }
}

/// A user-defined function: its name, parameter list, body, and the handle
/// of the scope captured at its definition.
#[derive(Debug)]
pub struct CustomFn {
    name: Vec<u8>,
    inputs: Vec<Expr>,
    body: Box<Stmt>,
    closure: usize,
}

/// The mathematical shape of a user-defined function.
pub struct CustomFnV {
    pub name: Seq<u8>,
    pub inputs: Seq<ExprV>,
    pub body: StmtV,
    pub closure: usize,
}

impl View for CustomFn {
    type V = CustomFnV;

    closed spec fn view(&self) -> CustomFnV {
        CustomFnV {
            name: self.name@,
            inputs: exprs_view(self.inputs@),
            body: (*self.body)@,
            closure: self.closure,
        }
    }
}

impl CustomFn {
    pub fn new(name: Vec<u8>, inputs: Vec<Expr>, body: Box<Stmt>, closure: usize) -> (r: CustomFn)
        ensures
            r@ == (CustomFnV {
                name: name@,
                inputs: exprs_view(inputs@),
                body: (*body)@,
                closure,
            }),
    {
        CustomFn { name, inputs, body, closure }
    }

    /// The function's name.
    pub fn name_bytes(&self) -> (r: Vec<u8>)
        ensures
            r@ == self@.name,
    {
        bytes_clone(&self.name)
    }

    /// The parameter expressions.
    pub fn inputs(&self) -> (r: &Vec<Expr>)
        ensures
            exprs_view(r@) == self@.inputs,
    {
        &self.inputs
    }

    /// The function body.
    pub fn body(&self) -> (r: &Stmt)
        ensures
            r@ == self@.body,
    {
        &self.body
    }

    /// The captured scope handle.
    pub fn closure(&self) -> (r: usize)
        ensures
            r == self@.closure,
    {
        self.closure
    }
}

/// A callable value: native or user-defined.
#[derive(Debug)]
pub enum Callable {
    Native(NativeFn),
    Custom(CustomFn),
}

/// The mathematical shape of a callable.
pub enum CallableV {
    Native(NativeFnV),
    Custom(CustomFnV),
}

impl View for Callable {
    type V = CallableV;

    open spec fn view(&self) -> CallableV {
        match self {
            Callable::Native(n) => CallableV::Native(n@),
            Callable::Custom(c) => CallableV::Custom(c@),
        }
    }
}

/// The number of parameters a callable expects.
pub open spec fn spec_arity(c: CallableV) -> usize {
    match c {
        CallableV::Native(n) => n.arity,
        CallableV::Custom(f) => f.inputs.len() as usize,
    }
}

impl Callable {
    /// The number of parameters the callable expects.
    pub fn arity(&self) -> (r: usize)
        ensures
            r == spec_arity(self@),
    {
        match self {
            Callable::Native(n) => n.arity_of(),
            Callable::Custom(c) => {
                proof {
                    crate::expr::lemma_exprs_view(c.inputs@);
                }
                c.inputs.len()
            },
        }
    }
}

/// A runtime value.
#[derive(Debug)]
pub enum Value {
    Number(u64),
    String(Vec<u8>),
    Boolean(bool),
    Null,
    Function(Callable),
}

/// The mathematical shape of a runtime value: a number as its double
/// encoding, text as bytes.
pub enum ValueV {
    Number(u64),
    Str(Seq<u8>),
    Bool(bool),
    Null,
    Function(CallableV),
}

impl View for Value {
    type V = ValueV;

    open spec fn view(&self) -> ValueV {
        match self {
            Value::Number(b) => ValueV::Number(*b),
            Value::String(s) => ValueV::Str(s@),
            Value::Boolean(b) => ValueV::Bool(*b),
            Value::Null => ValueV::Null,
            Value::Function(c) => ValueV::Function(c@),
        }
    }
}

/// Truthiness: a number is true unless zero, text unless empty, a boolean
/// is itself, null is false, every function is true.
pub open spec fn spec_truthy(v: ValueV) -> bool {
    match v {
        ValueV::Number(b) => spec_num_truthy(b),
        ValueV::Str(s) => s.len() != 0,
        ValueV::Bool(b) => b,
        ValueV::Null => false,
        ValueV::Function(_) => true,
    }
}

pub fn truthy(v: &Value) -> (r: bool)
    ensures
        r == spec_truthy(v@),
{
    match v {
        Value::Number(b) => num_truthy(*b),
        Value::String(s) => s.len() != 0,
        Value::Boolean(b) => *b,
        Value::Null => false,
        Value::Function(_) => true,
    }
}

/// Structural equality of values: numbers compare as IEEE doubles, different
/// kinds compare unequal, `null == null` holds.
pub open spec fn spec_value_eq(a: ValueV, b: ValueV) -> bool {
    match (a, b) {
        (ValueV::Number(x), ValueV::Number(y)) => spec_num_eq(x, y),
        (ValueV::Str(x), ValueV::Str(y)) => x == y,
        (ValueV::Bool(x), ValueV::Bool(y)) => x == y,
        (ValueV::Null, ValueV::Null) => true,
        (ValueV::Function(x), ValueV::Function(y)) => x == y,
        _ => false,
    }
}

pub fn value_eq(a: &Value, b: &Value) -> (r: bool)
    ensures
        r == spec_value_eq(a@, b@),
{
    match (a, b) {
        (Value::Number(x), Value::Number(y)) => num_eq(*x, *y),
        (Value::String(x), Value::String(y)) => bytes_eq(x, y),
        (Value::Boolean(x), Value::Boolean(y)) => x == y,
        (Value::Null, Value::Null) => true,
        (Value::Function(x), Value::Function(y)) => callable_eq(x, y),
        _ => false,
    }
}

fn callable_eq(a: &Callable, b: &Callable) -> (r: bool)
    ensures
        r == (a@ == b@),
{
    match (a, b) {
        (Callable::Native(x), Callable::Native(y)) => bytes_eq(&x.name, &y.name) && x.arity
            == y.arity && x.kind == y.kind,
        (Callable::Custom(x), Callable::Custom(y)) => bytes_eq(&x.name, &y.name) && x.closure
            == y.closure && exprs_eq(&x.inputs, &y.inputs) && stmt_eq(&x.body, &y.body),
        _ => false,
    }
}

/// A copy of a value with the same shape.
pub fn value_clone(v: &Value) -> (r: Value)
    ensures
        r@ == v@,
{
    match v {
        Value::Number(b) => Value::Number(*b),
        Value::String(s) => Value::String(bytes_clone(s)),
        Value::Boolean(b) => Value::Boolean(*b),
        Value::Null => Value::Null,
        Value::Function(c) => Value::Function(
            match c {
                Callable::Native(n) => Callable::Native(
                    NativeFn::new(n.get_name(), n.arity_of(), n.kind()),
                ),
                Callable::Custom(f) => Callable::Custom(
                    CustomFn::new(
                        f.name_bytes(),
                        exprs_clone(f.inputs()),
                        Box::new(stmt_clone(f.body())),
                        f.closure(),
                    ),
                ),
            },
        ),
    }
}

/// The name a parameter expression contributes to a function's display
/// form: its variable name, or nothing.
pub open spec fn spec_param_name(e: ExprV) -> Seq<u8> {
    match e {
        ExprV::Variable(n) => n,
        _ => Seq::empty(),
    }
}

/// The parameter names after the first, each preceded by a comma.
pub open spec fn spec_params_rest(ps: Seq<ExprV>) -> Seq<u8>
    decreases ps.len(),
{
    if ps.len() == 0 {
        Seq::empty()
    } else {
        seq![44u8, 32u8] + spec_param_name(ps[0]) + spec_params_rest(ps.skip(1))
    }
}

/// The comma-separated parameter names of a function's display form.
pub open spec fn spec_params_text(ps: Seq<ExprV>) -> Seq<u8> {
    if ps.len() == 0 {
        Seq::empty()
    } else {
        spec_param_name(ps[0]) + spec_params_rest(ps.skip(1))
    }
}

/// The display form of a value: the number's decimal text, text quoted with
/// double quotes, `true`/`false`, `null`, and the two function forms.
pub open spec fn spec_display(v: ValueV) -> Seq<u8> {
    match v {
        ValueV::Number(b) => number_text(b),
        ValueV::Str(s) => seq![34u8] + s + seq![34u8],
        ValueV::Bool(b) => if b {
            seq![116u8, 114u8, 117u8, 101u8]
        } else {
            seq![102u8, 97u8, 108u8, 115u8, 101u8]
        },
        ValueV::Null => seq![110u8, 117u8, 108u8, 108u8],
        ValueV::Function(CallableV::Native(n)) => seq![
            60u8, 110u8, 97u8, 116u8, 105u8, 118u8, 101u8, 32u8, 102u8, 110u8, 32u8, 96u8,
        ] + n.name + seq![96u8, 62u8],
        ValueV::Function(CallableV::Custom(f)) => seq![
            102u8, 117u8, 110u8, 99u8, 116u8, 105u8, 111u8, 110u8, 32u8,
        ] + f.name + seq![40u8] + spec_params_text(f.inputs) + seq![
            41u8, 32u8, 123u8, 32u8, 46u8, 46u8, 46u8, 32u8, 125u8,
        ],
    }
}

/// Appends all of `s` to `out`.
pub fn push_all(out: &mut Vec<u8>, s: &[u8])
    ensures
        final(out)@ == old(out)@ + s@,
{
    let mut i: usize = 0;
    proof {
        assert(out@ =~= out@ + s@.subrange(0, 0));
    }
    while i < s.len()
        invariant
            i <= s@.len(),
            out@ == old(out)@ + s@.subrange(0, i as int),
        decreases s@.len() - i,
    {
        out.push(s[i]);
        i += 1;
        proof {
            assert(out@ =~= old(out)@ + s@.subrange(0, i as int));
        }
    }
    proof {
        assert(s@.subrange(0, s@.len() as int) =~= s@);
    }
}

fn push_param_name(out: &mut Vec<u8>, e: &Expr)
    ensures
        final(out)@ == old(out)@ + spec_param_name(e@),
{
    match e {
        Expr::Variable(n) => push_all(out, n.as_slice()),
        _ => {
            proof {
                assert(out@ =~= out@ + Seq::<u8>::empty());
            }
        },
    }
}

/// The display form of a value, as bytes.
pub fn display_value(v: &Value) -> (r: Vec<u8>)
    ensures
        r@ == spec_display(v@),
{
    match v {
        Value::Number(b) => number_text_bytes(*b),
        Value::String(s) => {
            let mut out: Vec<u8> = Vec::new();
            out.push(34);
            push_all(&mut out, s.as_slice());
            out.push(34);
            proof {
                assert(out@ =~= spec_display(v@));
            }
            out
        },
        Value::Boolean(b) => {
            let mut out: Vec<u8> = Vec::new();
            if *b {
                out.push(116);
                out.push(114);
                out.push(117);
                out.push(101);
            } else {
                out.push(102);
                out.push(97);
                out.push(108);
                out.push(115);
                out.push(101);
            }
            proof {
                assert(out@ =~= spec_display(v@));
            }
            out
        },
        Value::Null => {
            let mut out: Vec<u8> = Vec::new();
            out.push(110);
            out.push(117);
            out.push(108);
            out.push(108);
            proof {
                assert(out@ =~= spec_display(v@));
            }
            out
        },
        Value::Function(Callable::Native(n)) => {
            let mut out: Vec<u8> = Vec::new();
            out.push(60);
            out.push(110);
            out.push(97);
            out.push(116);
            out.push(105);
            out.push(118);
            out.push(101);
            out.push(32);
            out.push(102);
            out.push(110);
            out.push(32);
            out.push(96);
            push_all(&mut out, n.name.as_slice());
            out.push(96);
            out.push(62);
            proof {
                assert(out@ =~= spec_display(v@));
            }
            out
        },
        Value::Function(Callable::Custom(f)) => {
            let mut out: Vec<u8> = Vec::new();
            out.push(102);
            out.push(117);
            out.push(110);
            out.push(99);
            out.push(116);
            out.push(105);
            out.push(111);
            out.push(110);
            out.push(32);
            push_all(&mut out, f.name.as_slice());
            out.push(40);
            let ghost head = out@;
            let ghost iv = exprs_view(f.inputs@);
            if f.inputs.len() > 0 {
                proof {
                    crate::expr::lemma_exprs_view(f.inputs@);
                }
                push_param_name(&mut out, &f.inputs[0]);
                let mut i: usize = 1;
                proof {
                    assert(out@ =~= head + spec_param_name(iv[0]) + spec_params_rest(
                        iv.skip(1).take(0),
                    ));
                }
                while i < f.inputs.len()
                    invariant
                        1 <= i <= f.inputs@.len(),
                        iv == exprs_view(f.inputs@),
                        iv.len() == f.inputs@.len(),
                        forall|k: int| 0 <= k < iv.len() ==> iv[k] == crate::expr::expr_view(
                            f.inputs@[k],
                        ),
                        out@ == head + spec_param_name(iv[0]) + spec_params_rest(
                            iv.skip(1).take(i - 1),
                        ),
                    decreases f.inputs@.len() - i,
                {
                    let ghost before = out@;
                    out.push(44);
                    out.push(32);
                    push_param_name(&mut out, &f.inputs[i]);
                    proof {
                        lemma_params_rest_snoc(iv.skip(1), i - 1);
                        assert(out@ =~= head + spec_param_name(iv[0]) + spec_params_rest(
                            iv.skip(1).take(i as int),
                        ));
                    }
                    i += 1;
                }
                proof {
                    assert(iv.skip(1).take(iv.skip(1).len() as int) =~= iv.skip(1));
                    assert(out@ =~= head + spec_params_text(iv));
                }
            } else {
                proof {
                    crate::expr::lemma_exprs_view(f.inputs@);
                    assert(out@ =~= head + spec_params_text(iv));
                }
            }
            out.push(41);
            out.push(32);
            out.push(123);
            out.push(32);
            out.push(46);
            out.push(46);
            out.push(46);
            out.push(32);
            out.push(125);
            proof {
                assert(out@ =~= spec_display(v@));
            }
            out
        },
    }
}

/// Taking one more parameter extends the rendered rest by a comma and the
/// parameter's name.
proof fn lemma_params_rest_snoc(ps: Seq<ExprV>, n: int)
    requires
        0 <= n < ps.len(),
    ensures
        spec_params_rest(ps.take(n + 1)) == spec_params_rest(ps.take(n)) + seq![44u8, 32u8]
            + spec_param_name(ps[n]),
    decreases n,
{
    if n == 0 {
        assert(ps.take(1).skip(1) =~= Seq::<ExprV>::empty());
        assert(ps.take(0) =~= Seq::<ExprV>::empty());
        assert(spec_params_rest(ps.take(1)) =~= spec_params_rest(ps.take(0)) + seq![44u8, 32u8]
            + spec_param_name(ps[0]));
    } else {
        lemma_params_rest_snoc(ps.skip(1), n - 1);
        assert(ps.take(n + 1).skip(1) =~= ps.skip(1).take(n));
        assert(ps.take(n).skip(1) =~= ps.skip(1).take(n - 1));
        assert(spec_params_rest(ps.take(n + 1)) =~= spec_params_rest(ps.take(n)) + seq![
            44u8,
            32u8,
        ] + spec_param_name(ps[n]));
    }
}

} // verus!
