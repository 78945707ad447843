//! The lexical environment: a node in a singly-linked chain of
//! name-to-value frames. Lookup walks the chain outward; binding writes
//! the innermost frame only. A root scope (one without a parent) seeds
//! the fixed built-in bindings `log`, `num`, `bool`, `str`.
use vstd::prelude::*;

use crate::modules::{bool_fn, get_write, num_fn, str_fn, write_fn};
use crate::types::{vm, vprs, lemma_vprs, value_clone, Value, Vm};
use crate::strutil::str_eq;

verus! {

broadcast use {vstd::std_specs::vec::group_vec_axioms, vstd::seq::group_seq_axioms};

/// A scope: its own bindings, and the enclosing scope if any.
#[derive(Debug)]
pub struct Scope {
    pub previous: Option<Box<Scope>>,
    pub variables: Vec<(String, Value)>,
    pub filename: String,
}

/// Whether the pair list binds `k`.
pub open spec fn assoc_has(o: Seq<(Seq<char>, Vm)>, k: Seq<char>) -> bool
    decreases o,
{
    if o.len() == 0 {
        false
    } else if o[0].0 == k {
        true
    } else {
        assoc_has(o.drop_first(), k)
    }
}

/// The first value the pair list binds to `k`, or null.
pub open spec fn assoc_get(o: Seq<(Seq<char>, Vm)>, k: Seq<char>) -> Vm
    decreases o,
{
    if o.len() == 0 {
        Vm::Null
    } else if o[0].0 == k {
        o[0].1
    } else {
        assoc_get(o.drop_first(), k)
    }
}

/// The pair list with `k` bound to `v`: the first binding of `k` is
/// overwritten in place, a new name is appended.
pub open spec fn assoc_set(o: Seq<(Seq<char>, Vm)>, k: Seq<char>, v: Vm) -> Seq<(Seq<char>, Vm)>
    decreases o,
{
    if o.len() == 0 {
        seq![(k, v)]
    } else if o[0].0 == k {
        o.update(0, (k, v))
    } else {
        seq![o[0]] + assoc_set(o.drop_first(), k, v)
    }
}

/// The fixed built-in frame every root scope starts with.
pub open spec fn builtins_frame() -> Seq<(Seq<char>, Vm)> {
    seq![
        ("log"@, write_fn()),
        ("num"@, num_fn()),
        ("bool"@, bool_fn()),
        ("str"@, str_fn()),
    ]
}

/// The chain of frames, innermost first.
pub open spec fn sframes(s: Scope) -> Seq<Seq<(Seq<char>, Vm)>>
    decreases s,
{
    seq![vprs(s.variables@)] + match s.previous {
        Some(p) => sframes(*p),
        None => Seq::empty(),
    }
}

/// Identifier resolution over a frame chain: the value of the first frame
/// that binds the name, or null when none does.
pub open spec fn frames_get(fs: Seq<Seq<(Seq<char>, Vm)>>, n: Seq<char>) -> Vm
    decreases fs,
{
    if fs.len() == 0 {
        Vm::Null
    } else if assoc_has(fs[0], n) {
        assoc_get(fs[0], n)
    } else {
        frames_get(fs.drop_first(), n)
    }
}

/// The distance, along the chain, to the first frame that binds `n`; the
/// last frame (the root) when none does.
pub open spec fn find_at(fs: Seq<Seq<(Seq<char>, Vm)>>, n: Seq<char>) -> int
    decreases fs,
{
    if fs.len() <= 1 {
        0
    } else if assoc_has(fs[0], n) {
        0
    } else {
        1 + find_at(fs.drop_first(), n)
    }
}

/// The first-binding distance stays within the chain.
pub proof fn lemma_find_at_in_range(fs: Seq<Seq<(Seq<char>, Vm)>>, n: Seq<char>)
    requires
        fs.len() >= 1,
    ensures
        0 <= find_at(fs, n) < fs.len(),
    decreases fs,
{
    if fs.len() > 1 && !assoc_has(fs[0], n) {
        lemma_find_at_in_range(fs.drop_first(), n);
    }
}

impl Scope {
    /// A root scope over `filename`, seeded with the built-ins.
    pub fn new(filename: String) -> (r: Scope)
        ensures
            sframes(r) == seq![builtins_frame()],
            r.filename@ == filename@,
    {
        Scope::from(None, filename)
    }

    /// A scope chained onto `previous`; a root (no parent) is seeded with
    /// the built-in bindings.
    pub fn from(previous: Option<Box<Scope>>, filename: String) -> (r: Scope)
        ensures
            r.filename@ == filename@,
            sframes(r) == (match previous {
                Some(p) => seq![Seq::<(Seq<char>, Vm)>::empty()] + sframes(*p),
                None => seq![builtins_frame()],
            }),
    {
        let mut variables: Vec<(String, Value)> = Vec::new();
        if previous.is_none() {
            variables.push(("log".to_owned(), get_write()));
            variables.push(("num".to_owned(), crate::modules::get_num()));
            variables.push(("bool".to_owned(), crate::modules::get_bool()));
            variables.push(("str".to_owned(), crate::modules::get_str()));
            proof {
                lemma_vprs(variables@);
                assert(vprs(variables@) =~= builtins_frame());
            }
        } else {
            proof {
                assert(vprs(variables@) =~= Seq::<(Seq<char>, Vm)>::empty());
            }
        }
        Scope { previous, variables, filename }
    }

    /// Whether this scope itself (not an ancestor) binds `name`.
    #[verifier::loop_isolation(false)]
    pub fn is_present(&self, name: &String) -> (r: bool)
        ensures
            r == assoc_has(vprs(self.variables@), name@),
    {
        proof {
            lemma_vprs(self.variables@);
            assert(vprs(self.variables@).skip(0) =~= vprs(self.variables@));
        }
        let ghost vo = vprs(self.variables@);
        let mut i: usize = 0;
        while i < self.variables.len()
            invariant
                i <= self.variables@.len(),
                assoc_has(vo, name@) == assoc_has(vo.skip(i as int), name@),
            decreases self.variables@.len() - i,
        {
            proof {
                assert(vo.skip(i as int)[0] == (
                    self.variables@[i as int].0@,
                    vm(self.variables@[i as int].1),
                ));
                assert(vo.skip(i as int).drop_first() =~= vo.skip(i + 1));
            }
            if str_eq(self.variables[i].0.as_str(), name.as_str()) {
                return true;
            }
            i = i + 1;
        }
        false
    }

    /// The value the chain binds to `name`, the innermost binding first;
    /// null when no scope defines it.
    pub fn get(&self, name: &String) -> (r: Value)
        ensures
            vm(r) == frames_get(sframes(*self), name@),
        decreases self,
    {
        proof {
            assert(sframes(*self)[0] == vprs(self.variables@));
            assert(sframes(*self).drop_first() =~= match self.previous {
                Some(p) => sframes(*p),
                None => Seq::empty(),
            });
        }
        if self.is_present(name) {
            proof {
                assert(frames_get(sframes(*self), name@) == assoc_get(
                    vprs(self.variables@),
                    name@,
                ));
            }
            self.get_local(name)
        } else {
            match &self.previous {
                Some(p) => {
                    proof {
                        assert(frames_get(sframes(*self), name@) == frames_get(
                            sframes(**p),
                            name@,
                        ));
                    }
                    p.get(name)
                },
                None => {
                    proof {
                        assert(sframes(*self).drop_first() =~= Seq::<
                            Seq<(Seq<char>, Vm)>,
                        >::empty());
                        assert(frames_get(Seq::<Seq<(Seq<char>, Vm)>>::empty(), name@)
                            == Vm::Null);
                    }
                    Value::Null
                },
            }
        }
    }

    /// The value this scope itself binds to `name`, or null.
    #[verifier::loop_isolation(false)]
    pub fn get_local(&self, name: &String) -> (r: Value)
        ensures
            vm(r) == assoc_get(vprs(self.variables@), name@),
    {
        proof {
            lemma_vprs(self.variables@);
            assert(vprs(self.variables@).skip(0) =~= vprs(self.variables@));
        }
        let ghost vo = vprs(self.variables@);
        let mut i: usize = 0;
        while i < self.variables.len()
            invariant
                i <= self.variables@.len(),
                assoc_get(vo, name@) == assoc_get(vo.skip(i as int), name@),
            decreases self.variables@.len() - i,
        {
            proof {
                assert(vo.skip(i as int)[0] == (
                    self.variables@[i as int].0@,
                    vm(self.variables@[i as int].1),
                ));
                assert(vo.skip(i as int).drop_first() =~= vo.skip(i + 1));
            }
            if str_eq(self.variables[i].0.as_str(), name.as_str()) {
                return value_clone(&self.variables[i].1);
            }
            i = i + 1;
        }
        Value::Null
    }

    /// Binds `name` in this scope only (declaration semantics); an
    /// existing local binding is overwritten. Returns the previous local
    /// value, or null.
    #[verifier::loop_isolation(false)]
    pub fn set(&mut self, name: String, value: Value) -> (r: Value)
        ensures
            final(self).previous == old(self).previous,
            final(self).filename == old(self).filename,
            vprs(final(self).variables@) == assoc_set(
                vprs(old(self).variables@),
                name@,
                vm(value),
            ),
            vm(r) == assoc_get(vprs(old(self).variables@), name@),
    {
        proof {
            lemma_vprs(self.variables@);
            assert(vprs(self.variables@).skip(0) =~= vprs(self.variables@));
        }
        let ghost vo = vprs(self.variables@);
        let mut i: usize = 0;
        while i < self.variables.len()
            invariant
                self.variables@ == old(self).variables@,
                self.previous == old(self).previous,
                self.filename == old(self).filename,
                i <= self.variables@.len(),
                assoc_get(vo, name@) == assoc_get(vo.skip(i as int), name@),
                assoc_set(vo, name@, vm(value)) == vo.take(i as int) + assoc_set(
                    vo.skip(i as int),
                    name@,
                    vm(value),
                ),
                forall|t: int| 0 <= t < i ==> vo[t].0 != name@,
            decreases self.variables@.len() - i,
        {
            proof {
                assert(vo.skip(i as int)[0] == (
                    self.variables@[i as int].0@,
                    vm(self.variables@[i as int].1),
                ));
                assert(vo.skip(i as int).drop_first() =~= vo.skip(i + 1));
            }
            if str_eq(self.variables[i].0.as_str(), name.as_str()) {
                let prev = value_clone(&self.variables[i].1);
                let ghost old_vars = self.variables@;
                self.variables.set(i, (name, value));
                proof {
                    lemma_vprs(self.variables@);
                    lemma_vprs(old_vars);
                    assert(vprs(self.variables@) =~= vo.update(i as int, (name@, vm(value))));
                    assert(vo.skip(i as int).update(0, (name@, vm(value))) =~= vo.update(
                        i as int,
                        (name@, vm(value)),
                    ).skip(i as int));
                    assert(vo.take(i as int) + assoc_set(vo.skip(i as int), name@, vm(value))
                        =~= vo.update(i as int, (name@, vm(value))));
                }
                return prev;
            }
            proof {
                assert(vo.take(i + 1) =~= vo.take(i as int).push(vo[i as int]));
                assert(vo.take(i as int) + (seq![vo[i as int]] + assoc_set(
                    vo.skip(i + 1),
                    name@,
                    vm(value),
                )) =~= vo.take(i + 1) + assoc_set(vo.skip(i + 1), name@, vm(value)));
            }
            i = i + 1;
        }
        let ghost old_vars = self.variables@;
        let ghost gname = name@;
        let ghost gval = vm(value);
        self.variables.push((name, value));
        proof {
            assert(self.variables@.drop_last() =~= old_vars);
            assert(vprs(self.variables@) == vprs(old_vars).push((gname, gval)));
            assert(vo.skip(vo.len() as int) =~= Seq::<(Seq<char>, Vm)>::empty());
            assert(assoc_set(vo.skip(vo.len() as int), gname, gval) =~= seq![(gname, gval)]);
            assert(vo.take(vo.len() as int) =~= vo);
            assert(vprs(old_vars).push((gname, gval)) =~= vo + seq![(gname, gval)]);
            assert(vprs(self.variables@) =~= vo.take(vo.len() as int) + seq![(gname, gval)]);
        }
        Value::Null
    }

    /// The nearest scope, from this one outward, that binds `name`; the
    /// root when none does. The result is the suffix of this chain that
    /// starts at the first binding frame, so resolution through it agrees
    /// with resolution through this scope.
    pub fn find_scope(&self, name: &String) -> (r: &Scope)
        ensures
            sframes(*r) == sframes(*self).skip(find_at(sframes(*self), name@)),
            frames_get(sframes(*r), name@) == frames_get(sframes(*self), name@),
            assoc_has(vprs(r.variables@), name@) || r.previous is None,
        decreases self,
    {
        proof {
            assert(sframes(*self)[0] == vprs(self.variables@));
            assert(sframes(*self).drop_first() =~= match self.previous {
                Some(p) => sframes(*p),
                None => Seq::empty(),
            });
        }
        if self.is_present(name) {
            proof {
                assert(sframes(*self).skip(0) =~= sframes(*self));
            }
            self
        } else {
            match &self.previous {
                Some(p) => {
                    let r = p.find_scope(name);
                    proof {
                        let fs = sframes(*self);
                        if fs.len() > 1 {
                            assert(sframes(**p) =~= fs.drop_first());
                            lemma_find_at_in_range(fs.drop_first(), name@);
                            assert(fs.drop_first().skip(find_at(fs.drop_first(), name@)) =~= fs.skip(
                                1 + find_at(fs.drop_first(), name@),
                            ));
                        } else {
                            assert(sframes(**p).len() >= 1);
                            assert(fs.len() == 1 + sframes(**p).len());
                        }
                    }
                    r
                },
                None => {
                    proof {
                        assert(sframes(*self).len() == 1);
                        assert(sframes(*self).skip(0) =~= sframes(*self));
                    }
                    self
                },
            }
        }
    }

    /// The error value that reports `msg` at `pos` in this scope's file;
    /// the host surfaces it and stops.
    pub fn throw_exception(&self, msg: String, pos: Vec<usize>) -> (r: crate::Error)
        ensures
            r.msg == msg,
            r.pos == pos,
    {
        crate::Error { msg, pos }
    }
}

} // verus!
