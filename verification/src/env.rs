//! The environment: a growing arena of scopes addressed by handles.
//!
//! A scope is a handle into `parents`; its bindings are the entries of the
//! flat binding list that carry the handle, the most recent one winning.
//! Parents always point at older scopes, so chains are finite, and closures
//! may keep a handle alive after the block that created the scope has left.
use vstd::prelude::*;

use crate::callables::Value;
use crate::callables::ValueV;
use crate::callables::value_clone;
use crate::token_type::bytes_eq;

verus! {

/// One binding: a name bound to a value inside one scope.
#[derive(Debug)]
pub struct Binding {
    pub scope: usize,
    pub name: Vec<u8>,
    pub value: Value,
}

/// The mathematical shape of a binding.
pub struct BindingV {
    pub scope: usize,
    pub name: Seq<u8>,
    pub value: ValueV,
}

impl View for Binding {
    type V = BindingV;

    open spec fn view(&self) -> BindingV {
        BindingV { scope: self.scope, name: self.name@, value: self.value@ }
    }
}

/// The arena of scopes.
#[derive(Debug)]
pub struct Env {
    vars: Vec<Binding>,
    parents: Vec<Option<usize>>,
}

/// The mathematical shape of an environment: the bindings in the order they
/// were made, and each scope's parent.
pub struct EnvV {
    pub vars: Seq<BindingV>,
    pub parents: Seq<Option<usize>>,
}

impl View for Env {
    type V = EnvV;

    closed spec fn view(&self) -> EnvV {
        EnvV { vars: self.vars@.map_values(|b: Binding| b@), parents: self.parents@ }
    }
}

/// Every parent link points at an older scope.
pub open spec fn env_wf(e: EnvV) -> bool {
    forall|j: int|
        0 <= j < e.parents.len() ==> (#[trigger] e.parents[j] matches Some(p) ==> p < j)
}

/// The value of `name` in scope `s` alone: the latest binding wins.
pub open spec fn spec_scope_get(vars: Seq<BindingV>, s: usize, name: Seq<u8>) -> Option<ValueV>
    decreases vars.len(),
{
    if vars.len() == 0 {
        None
    } else if vars.last().scope == s && vars.last().name == name {
        Some(vars.last().value)
    } else {
        spec_scope_get(vars.drop_last(), s, name)
    }
}

/// The index of the latest binding of `name` in scope `s`, or `-1`.
pub open spec fn spec_scope_idx(vars: Seq<BindingV>, s: usize, name: Seq<u8>) -> int
    decreases vars.len(),
{
    if vars.len() == 0 {
        -1
    } else if vars.last().scope == s && vars.last().name == name {
        vars.len() - 1
    } else {
        spec_scope_idx(vars.drop_last(), s, name)
    }
}

/// The value of `name` looked up along the parent chain from scope `s`.
pub open spec fn spec_env_get(e: EnvV, s: usize, name: Seq<u8>) -> Option<ValueV>
    decreases s,
{
    match spec_scope_get(e.vars, s, name) {
        Some(v) => Some(v),
        None => if 0 <= s < e.parents.len() {
            match e.parents[s as int] {
                Some(p) => if p < s {
                    spec_env_get(e, p, name)
                } else {
                    None
                },
                None => None,
            }
        } else {
            None
        },
    }
}

/// The scope along the chain from `s` that holds `name`, or `-1`.
pub open spec fn spec_env_holder(e: EnvV, s: usize, name: Seq<u8>) -> int
    decreases s,
{
    if spec_scope_get(e.vars, s, name) is Some {
        s as int
    } else if 0 <= s < e.parents.len() {
        match e.parents[s as int] {
            Some(p) => if p < s {
                spec_env_holder(e, p, name)
            } else {
                -1
            },
            None => -1,
        }
    } else {
        -1
    }
}

/// The environment after assignment: the latest binding of `name` in the
/// first chain scope that holds it is replaced; `None` if none does.
pub open spec fn spec_redefine(e: EnvV, s: usize, name: Seq<u8>, v: ValueV) -> Option<EnvV> {
    let holder = spec_env_holder(e, s, name);
    if holder >= 0 {
        let j = spec_scope_idx(e.vars, holder as usize, name);
        Some(
            EnvV {
                vars: e.vars.update(
                    j,
                    BindingV { scope: holder as usize, name, value: v },
                ),
                parents: e.parents,
            },
        )
    } else {
        None
    }
}

/// The environment after removal of the latest binding of `name` in scope
/// `s` alone; unchanged if none exists.
pub open spec fn spec_remove(e: EnvV, s: usize, name: Seq<u8>) -> EnvV {
    let j = spec_scope_idx(e.vars, s, name);
    if j >= 0 {
        EnvV { vars: e.vars.remove(j), parents: e.parents }
    } else {
        e
    }
}

/// The index found by `spec_scope_idx` is in range and is the latest match.
pub proof fn lemma_scope_idx(vars: Seq<BindingV>, s: usize, name: Seq<u8>)
    ensures
        spec_scope_idx(vars, s, name) >= 0 <==> spec_scope_get(vars, s, name) is Some,
        spec_scope_idx(vars, s, name) >= 0 ==> {
            let j = spec_scope_idx(vars, s, name);
            &&& j < vars.len()
            &&& vars[j].scope == s
            &&& vars[j].name == name
            &&& spec_scope_get(vars, s, name) == Some(vars[j].value)
        },
    decreases vars.len(),
{
    if vars.len() > 0 {
        if !(vars.last().scope == s && vars.last().name == name) {
            lemma_scope_idx(vars.drop_last(), s, name);
        }
    }
}

impl Env {
    /// An empty arena with no scopes.
    pub fn new() -> (r: Env)
        ensures
            r@.vars == Seq::<BindingV>::empty(),
            r@.parents == Seq::<Option<usize>>::empty(),
    {
        let r = Env { vars: Vec::new(), parents: Vec::new() };
        proof {
            assert(r@.vars =~= Seq::<BindingV>::empty());
        }
        r
    }

    /// The number of scopes ever created.
    pub fn scope_count(&self) -> (r: usize)
        ensures
            r == self@.parents.len(),
    {
        self.parents.len()
    }

    /// Opens a new scope under the given parent and hands back its handle.
    pub fn push_scope(&mut self, parent: Option<usize>) -> (r: usize)
        requires
            parent matches Some(p) ==> p < old(self)@.parents.len(),
        ensures
            r == old(self)@.parents.len(),
            final(self)@.vars == old(self)@.vars,
            final(self)@.parents == old(self)@.parents.push(parent),
    {
        let r = self.parents.len();
        self.parents.push(parent);
        r
    }

    /// The parent of a scope.
    pub fn get_parent(&self, s: usize) -> (r: Option<usize>)
        ensures
            r == (if s < self@.parents.len() {
                self@.parents[s as int]
            } else {
                None::<usize>
            }),
    {
        if s < self.parents.len() {
            self.parents[s]
        } else {
            None
        }
    }

    /// Re-hangs a scope under a new, older parent.
    pub fn add_parent(&mut self, s: usize, parent: usize)
        requires
            s < old(self)@.parents.len(),
            parent < s,
        ensures
            final(self)@.vars == old(self)@.vars,
            final(self)@.parents == old(self)@.parents.update(s as int, Some(parent)),
    {
        self.parents[s] = Some(parent);
    }

    /// Binds `name` to `value` in scope `s` alone, shadowing any earlier
    /// binding there.
    pub fn define(&mut self, s: usize, name: Vec<u8>, value: Value)
        ensures
            final(self)@.parents == old(self)@.parents,
            final(self)@.vars == old(self)@.vars.push(
                BindingV { scope: s, name: name@, value: value@ },
            ),
    {
        let ghost old_vars = self@.vars;
        self.vars.push(Binding { scope: s, name, value });
        proof {
            assert(self@.vars =~= old_vars.push(self.vars@.last()@));
        }
    }

    /// The index of the latest binding of `name` in scope `s`, if any.
    fn scope_idx(&self, s: usize, name: &Vec<u8>) -> (r: Option<usize>)
        ensures
            match r {
                Some(j) => spec_scope_idx(self@.vars, s, name@) == j as int && j
                    < self@.vars.len(),
                None => spec_scope_idx(self@.vars, s, name@) == -1,
            },
    {
        let mut i: usize = self.vars.len();
        proof {
            assert(self@.vars.take(i as int) =~= self@.vars);
        }
        while i > 0
            invariant
                i <= self@.vars.len(),
                spec_scope_idx(self@.vars, s, name@) == spec_scope_idx(
                    self@.vars.take(i as int),
                    s,
                    name@,
                ),
            decreases i,
        {
            i = i - 1;
            let b = &self.vars[i];
            proof {
                assert(self@.vars[i as int] == self.vars@[i as int]@);
                assert(self@.vars.take(i as int + 1).drop_last() =~= self@.vars.take(i as int));
                assert(self@.vars.take(i as int + 1).last() == self@.vars[i as int]);
            }
            if b.scope == s && bytes_eq(&b.name, name) {
                return Some(i);
            }
        }
        proof {
            assert(self@.vars.take(0) =~= Seq::<BindingV>::empty());
        }
        None
    }

    /// The value of `name` in scope `s` alone.
    pub fn get_here(&self, s: usize, name: &Vec<u8>) -> (r: Option<Value>)
        ensures
            match r {
                Some(v) => spec_scope_get(self@.vars, s, name@) == Some(v@),
                None => spec_scope_get(self@.vars, s, name@) is None,
            },
    {
        proof {
            lemma_scope_idx(self@.vars, s, name@);
        }
        match self.scope_idx(s, name) {
            Some(j) => Some(value_clone(&self.vars[j].value)),
            None => None,
        }
    }

    /// The value of `name` looked up along the parent chain from scope `s`.
    pub fn get(&self, s: usize, name: &Vec<u8>) -> (r: Option<Value>)
        requires
            env_wf(self@),
        ensures
            match r {
                Some(v) => spec_env_get(self@, s, name@) == Some(v@),
                None => spec_env_get(self@, s, name@) is None,
            },
    {
        let mut cur: usize = s;
        loop
            invariant
                env_wf(self@),
                spec_env_get(self@, s, name@) == spec_env_get(self@, cur, name@),
            decreases cur,
        {
            proof {
                lemma_scope_idx(self@.vars, cur, name@);
            }
            match self.scope_idx(cur, name) {
                Some(j) => {
                    return Some(value_clone(&self.vars[j].value));
                },
                None => {
                    if cur < self.parents.len() {
                        match self.parents[cur] {
                            Some(p) => {
                                if p < cur {
                                    cur = p;
                                } else {
                                    return None;
                                }
                            },
                            None => {
                                return None;
                            },
                        }
                    } else {
                        return None;
                    }
                },
            }
        }
    }

    /// Replaces the latest binding of `name` along the chain from `s`; hands
    /// back whether any binding was found.
    pub fn redefine(&mut self, s: usize, name: &Vec<u8>, value: Value) -> (r: bool)
        requires
            env_wf(old(self)@),
        ensures
            match spec_redefine(old(self)@, s, name@, value@) {
                Some(e2) => r && final(self)@ == e2,
                None => !r && final(self)@ == old(self)@,
            },
    {
        let mut cur: usize = s;
        loop
            invariant
                env_wf(self@),
                self@ == old(self)@,
                spec_env_holder(self@, s, name@) == spec_env_holder(self@, cur, name@),
            decreases cur,
        {
            proof {
                lemma_scope_idx(self@.vars, cur, name@);
            }
            match self.scope_idx(cur, name) {
                Some(j) => {
                    let ghost oldv = self@.vars;
                    self.vars[j] = Binding {
                        scope: cur,
                        name: crate::token_type::bytes_clone(name),
                        value,
                    };
                    proof {
                        assert(self@.vars =~= oldv.update(
                            j as int,
                            BindingV { scope: cur, name: name@, value: value@ },
                        ));
                        assert(final(self)@ =~= spec_redefine(
                            old(self)@,
                            s,
                            name@,
                            value@,
                        ).unwrap());
                    }
                    return true;
                },
                None => {
                    if cur < self.parents.len() {
                        match self.parents[cur] {
                            Some(p) => {
                                if p < cur {
                                    cur = p;
                                } else {
                                    return false;
                                }
                            },
                            None => {
                                return false;
                            },
                        }
                    } else {
                        return false;
                    }
                },
            }
        }
    }

    /// Removes the latest binding of `name` in scope `s` alone, handing back
    /// its value if one was there.
    pub fn remove(&mut self, s: usize, name: &Vec<u8>) -> (r: Option<Value>)
        ensures
            final(self)@ == spec_remove(old(self)@, s, name@),
            match r {
                Some(v) => spec_scope_get(old(self)@.vars, s, name@) == Some(v@),
                None => spec_scope_get(old(self)@.vars, s, name@) is None,
            },
    {
        proof {
            lemma_scope_idx(self@.vars, s, name@);
        }
        match self.scope_idx(s, name) {
            Some(j) => {
                let ghost oldv = self@.vars;
                let b = self.vars.remove(j);
                proof {
                    assert(self@.vars =~= oldv.remove(j as int));
                }
                Some(b.value)
            },
            None => None,
        }
    }
}

} // verus!
