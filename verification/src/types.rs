//! The runtime value model: a closed tagged union with coercion and
//! comparison rules, container field access, and the parameter-binding
//! convention of function calls.
//!
//! Every contract speaks of values through the ghost mirror [`Vm`], reached
//! by the view [`vm`]: text becomes `Seq<char>`, vectors become `Seq`, and
//! numbers stay the 64 bits of their double.
use vstd::prelude::*;

use core::cmp::Ordering;

use crate::num::{
    is_zero_bits, of_int, parse_of, render_of, total_key, trunc_of, NAN_BITS,
    ONE_BITS, ZERO_BITS,
};
use crate::strutil::{lemma_lex_cmp_eq, lemma_lex_cmp_refl, lex_cmp, push_char, str_cmp, str_eq};
use crate::Error;

verus! {

broadcast use {vstd::std_specs::vec::group_vec_axioms, vstd::seq::group_seq_axioms};

/// A native function supplied by the runtime rather than by script code.
///
/// `Write` appends a line to the program's output transcript, `Read` takes
/// the next line from its input queue, `Random` takes the next word from
/// its entropy queue; the rest are pure.
#[derive(Clone, Copy, Debug, PartialEq, Eq, Structural)]
pub enum Builtin {
    Num,
    Str,
    Bool,
    Write,
    Read,
    Pow,
    Abs,
    Ceil,
    Floor,
    Round,
    Random,
    Max,
    Min,
}

/// How a function value runs: a script body, or a native builtin.
#[derive(Debug)]
pub enum FuncImpl {
    FromNode(crate::ast::Node),
    Builtin(Builtin),
}

/// One formal parameter: required, optional with a default, or a spread
/// that collects the remaining arguments into an array.
#[derive(Debug)]
pub enum FunctionArgument {
    Required(String),
    NotRequired(String, Value),
    Spread(String),
}

/// The ordered parameter list of a function value.
#[derive(Debug)]
pub struct FunctionArguments {
    pub args: Vec<FunctionArgument>,
}

/// A runtime value: the closed set of kinds a script value can hold.
/// Numbers carry the bits of a double; objects are ordered key/value lists
/// with unique string keys, kept in ascending key order.
#[derive(Debug)]
pub enum Value {
    String(String),
    Number(u64),
    Boolean(bool),
    Array(Vec<Value>),
    Object(Vec<(String, Value)>),
    Function(String, FunctionArguments, FuncImpl),
    Class(String, Option<Box<Value>>, Vec<(String, Value)>),
    Null,
}

/// The ghost mirror of [`FuncImpl`].
pub ghost enum Fim {
    FromNode(crate::ast::Nm),
    Builtin(Builtin),
}

/// The ghost value of a function implementation.
pub open spec fn fim(fi: FuncImpl) -> Fim
    decreases fi,
{
    match fi {
        FuncImpl::FromNode(node) => Fim::FromNode(crate::ast::nm(node)),
        FuncImpl::Builtin(b) => Fim::Builtin(b),
    }
}

/// The ghost mirror of [`FunctionArgument`].
pub ghost enum Pm {
    Required(Seq<char>),
    NotRequired(Seq<char>, Vm),
    Spread(Seq<char>),
}

/// The ghost mirror of [`Value`].
pub ghost enum Vm {
    Str(Seq<char>),
    Num(u64),
    Bool(bool),
    Arr(Seq<Vm>),
    Obj(Seq<(Seq<char>, Vm)>),
    Fun(Seq<char>, Seq<Pm>, Fim),
    Class(Seq<char>, Option<Box<Vm>>, Seq<(Seq<char>, Vm)>),
    Null,
}

/// The ghost value of one parameter descriptor.
pub open spec fn pm(p: FunctionArgument) -> Pm
    decreases p,
{
    match p {
        FunctionArgument::Required(n) => Pm::Required(n@),
        FunctionArgument::NotRequired(n, d) => Pm::NotRequired(n@, vm(d)),
        FunctionArgument::Spread(n) => Pm::Spread(n@),
    }
}

/// The ghost value of a runtime value.
pub open spec fn vm(v: Value) -> Vm
    decreases v,
{
    match v {
        Value::String(s) => Vm::Str(s@),
        Value::Number(b) => Vm::Num(b),
        Value::Boolean(x) => Vm::Bool(x),
        Value::Array(a) => Vm::Arr(vms(a@)),
        Value::Object(o) => Vm::Obj(vprs(o@)),
        Value::Function(n, ps, fi) => Vm::Fun(n@, pms(ps.args@), fim(fi)),
        Value::Class(n, c, ms) => Vm::Class(
            n@,
            match c {
                Some(b) => Some(Box::new(vm(*b))),
                None => None,
            },
            vprs(ms@),
        ),
        Value::Null => Vm::Null,
    }
}

/// The ghost values of a vector of values.
pub open spec fn vms(a: Seq<Value>) -> Seq<Vm>
    decreases a,
{
    if a.len() == 0 {
        Seq::empty()
    } else {
        vms(a.drop_last()).push(vm(a.last()))
    }
}

/// The ghost values of a vector of key/value pairs.
pub open spec fn vprs(a: Seq<(String, Value)>) -> Seq<(Seq<char>, Vm)>
    decreases a,
{
    if a.len() == 0 {
        Seq::empty()
    } else {
        vprs(a.drop_last()).push((a.last().0@, vm(a.last().1)))
    }
}

/// The ghost values of a parameter vector.
pub open spec fn pms(a: Seq<FunctionArgument>) -> Seq<Pm>
    decreases a,
{
    if a.len() == 0 {
        Seq::empty()
    } else {
        pms(a.drop_last()).push(pm(a.last()))
    }
}

/// `vms` maps elementwise.
pub broadcast proof fn lemma_vms(a: Seq<Value>)
    ensures
        (#[trigger] vms(a)).len() == a.len(),
        forall|i: int| 0 <= i < a.len() ==> vms(a)[i] == vm(a[i]),
    decreases a.len(),
{
    if a.len() > 0 {
        lemma_vms(a.drop_last());
    }
}

/// `vprs` maps elementwise.
pub broadcast proof fn lemma_vprs(a: Seq<(String, Value)>)
    ensures
        (#[trigger] vprs(a)).len() == a.len(),
        forall|i: int| 0 <= i < a.len() ==> vprs(a)[i] == (a[i].0@, vm(a[i].1)),
    decreases a.len(),
{
    if a.len() > 0 {
        lemma_vprs(a.drop_last());
    }
}

/// `pms` maps elementwise.
pub broadcast proof fn lemma_pms(a: Seq<FunctionArgument>)
    ensures
        (#[trigger] pms(a)).len() == a.len(),
        forall|i: int| 0 <= i < a.len() ==> pms(a)[i] == pm(a[i]),
    decreases a.len(),
{
    if a.len() > 0 {
        lemma_pms(a.drop_last());
    }
}

/// The truthiness rule: a string is true iff non-empty, a number iff it is
/// nonzero (either zero's bits are false, everything else — NaN included —
/// is true), containers iff non-empty, functions and classes always, null
/// never.
pub open spec fn as_bool_spec(v: Vm) -> bool {
    match v {
        Vm::Str(s) => s.len() > 0,
        Vm::Num(b) => !is_zero_bits(b),
        Vm::Bool(x) => x,
        Vm::Arr(a) => a.len() > 0,
        Vm::Obj(o) => o.len() > 0,
        Vm::Fun(_, _, _) => true,
        Vm::Class(_, _, _) => true,
        Vm::Null => false,
    }
}

/// The numeric coercion: parse for strings (NaN when the parse fails),
/// identity for numbers, 1/0 for booleans, 0 for null, NaN for the rest.
pub open spec fn as_number_spec(v: Vm) -> u64 {
    match v {
        Vm::Str(s) => match parse_of(s) {
            Some(b) => b,
            None => NAN_BITS,
        },
        Vm::Num(b) => b,
        Vm::Bool(x) => if x {
            ONE_BITS
        } else {
            ZERO_BITS
        },
        Vm::Null => ZERO_BITS,
        _ => NAN_BITS,
    }
}

impl Value {
    /// Whether this value counts as true in a condition.
    pub fn as_bool(&self) -> (r: bool)
        ensures
            r == as_bool_spec(vm(*self)),
    {
        match self {
            Value::String(s) => s.as_str().unicode_len() != 0,
            Value::Number(b) => !crate::num::num_is_zero(*b),
            Value::Boolean(x) => *x,
            Value::Array(a) => {
                proof {
                    lemma_vms(a@);
                }
                a.len() != 0
            },
            Value::Object(o) => {
                proof {
                    lemma_vprs(o@);
                }
                o.len() != 0
            },
            Value::Function(_, _, _) => true,
            Value::Class(_, _, _) => true,
            Value::Null => false,
        }
    }

    /// The bits of the double this value coerces to.
    pub fn as_number(&self) -> (r: u64)
        ensures
            r == as_number_spec(vm(*self)),
    {
        match self {
            Value::String(s) => match crate::num::num_parse(s.as_str()) {
                Some(b) => b,
                None => NAN_BITS,
            },
            Value::Number(b) => *b,
            Value::Boolean(x) => if *x {
                ONE_BITS
            } else {
                ZERO_BITS
            },
            Value::Null => ZERO_BITS,
            _ => NAN_BITS,
        }
    }
}

/// A deep copy whose ghost value is the same.
#[verifier::loop_isolation(false)]
pub fn value_clone(v: &Value) -> (r: Value)
    ensures
        vm(r) == vm(*v),
    decreases v,
{
    match v {
        Value::String(s) => Value::String(s.clone()),
        Value::Number(b) => Value::Number(*b),
        Value::Boolean(x) => Value::Boolean(*x),
        Value::Array(a) => {
            let mut out: Vec<Value> = Vec::new();
            let mut i: usize = 0;
            while i < a.len()
                invariant
                    i <= a@.len(),
                    out@.len() == i,
                    forall|j: int| 0 <= j < i ==> vm(out@[j]) == vm(a@[j]),
                decreases a@.len() - i,
            {
                out.push(value_clone(&a[i]));
                i = i + 1;
            }
            proof {
                lemma_vms(out@);
                lemma_vms(a@);
                assert(vms(out@) =~= vms(a@));
            }
            Value::Array(out)
        },
        Value::Object(o) => {
            let mut out: Vec<(String, Value)> = Vec::new();
            let mut i: usize = 0;
            while i < o.len()
                invariant
                    i <= o@.len(),
                    out@.len() == i,
                    forall|j: int|
                        0 <= j < i ==> out@[j].0@ == o@[j].0@ && vm(out@[j].1) == vm(o@[j].1),
                decreases o@.len() - i,
            {
                let entry = (o[i].0.clone(), value_clone(&o[i].1));
                out.push(entry);
                i = i + 1;
            }
            proof {
                lemma_vprs(out@);
                lemma_vprs(o@);
                assert(vprs(out@) =~= vprs(o@));
            }
            Value::Object(out)
        },
        Value::Function(n, ps, fi) => Value::Function(n.clone(), params_clone(ps), funcimpl_clone(fi)),
        Value::Class(n, c, ms) => {
            let cc: Option<Box<Value>> = match c {
                Some(b) => Some(Box::new(value_clone(b))),
                None => None,
            };
            let mut out: Vec<(String, Value)> = Vec::new();
            let mut i: usize = 0;
            while i < ms.len()
                invariant
                    i <= ms@.len(),
                    out@.len() == i,
                    forall|j: int|
                        0 <= j < i ==> out@[j].0@ == ms@[j].0@ && vm(out@[j].1) == vm(ms@[j].1),
                decreases ms@.len() - i,
            {
                let entry = (ms[i].0.clone(), value_clone(&ms[i].1));
                out.push(entry);
                i = i + 1;
            }
            proof {
                lemma_vprs(out@);
                lemma_vprs(ms@);
                assert(vprs(out@) =~= vprs(ms@));
            }
            Value::Class(n.clone(), cc, out)
        },
        Value::Null => Value::Null,
    }
}

/// A deep copy of a function implementation with the same ghost value.
pub fn funcimpl_clone(fi: &FuncImpl) -> (r: FuncImpl)
    ensures
        fim(r) == fim(*fi),
    decreases fi,
{
    match fi {
        FuncImpl::FromNode(node) => FuncImpl::FromNode(crate::ast::node_clone(node)),
        FuncImpl::Builtin(b) => FuncImpl::Builtin(*b),
    }
}

/// A deep copy of a parameter list with the same ghost value.
#[verifier::loop_isolation(false)]
pub fn params_clone(ps: &FunctionArguments) -> (r: FunctionArguments)
    ensures
        pms(r.args@) == pms(ps.args@),
    decreases ps,
{
    let mut out: Vec<FunctionArgument> = Vec::new();
    let mut i: usize = 0;
    while i < ps.args.len()
        invariant
            i <= ps.args@.len(),
            out@.len() == i,
            forall|j: int| 0 <= j < i ==> pm(out@[j]) == pm(ps.args@[j]),
        decreases ps.args@.len() - i,
    {
        let p = match &ps.args[i] {
            FunctionArgument::Required(n) => FunctionArgument::Required(n.clone()),
            FunctionArgument::NotRequired(n, d) => FunctionArgument::NotRequired(
                n.clone(),
                value_clone(d),
            ),
            FunctionArgument::Spread(n) => FunctionArgument::Spread(n.clone()),
        };
        out.push(p);
        i = i + 1;
    }
    proof {
        lemma_pms(out@);
        lemma_pms(ps.args@);
        assert(pms(out@) =~= pms(ps.args@));
    }
    FunctionArguments { args: out }
}

impl FunctionArguments {
    pub fn new(args: Vec<FunctionArgument>) -> (r: FunctionArguments)
        ensures
            r.args == args,
    {
        FunctionArguments { args }
    }

    pub fn add(&mut self, arg: FunctionArgument)
        ensures
            final(self).args@ == old(self).args@.push(arg),
    {
        self.args.push(arg);
    }

    pub fn get(&self) -> (r: &Vec<FunctionArgument>)
        ensures
            r == &self.args,
    {
        &self.args
    }
}

/// The rendering of an array: the elements' renderings joined by `,`.
pub open spec fn join_arr(a: Seq<Vm>) -> Seq<char>
    decreases a,
{
    if a.len() == 0 {
        Seq::empty()
    } else if a.len() == 1 {
        as_string_spec(a[0])
    } else {
        join_arr(a.drop_last()) + ","@ + as_string_spec(a.last())
    }
}

/// The rendering of an object: `key: value` pairs joined by `, `,
/// in stored (ascending key) order.
pub open spec fn join_obj(o: Seq<(Seq<char>, Vm)>) -> Seq<char>
    decreases o,
{
    if o.len() == 0 {
        Seq::empty()
    } else if o.len() == 1 {
        o[0].0 + ": "@ + as_string_spec(o[0].1)
    } else {
        join_obj(o.drop_last()) + ", "@ + o.last().0 + ": "@ + as_string_spec(o.last().1)
    }
}

/// The text coercion: identity for strings, decimal rendering for numbers
/// and booleans, joined elements for containers, a fixed placeholder for
/// functions and classes, `null` for null.
pub open spec fn as_string_spec(v: Vm) -> Seq<char>
    decreases v,
{
    match v {
        Vm::Str(s) => s,
        Vm::Num(b) => render_of(b),
        Vm::Bool(x) => if x {
            "true"@
        } else {
            "false"@
        },
        Vm::Arr(a) => join_arr(a),
        Vm::Obj(o) => join_obj(o),
        Vm::Fun(n, _, _) => "fun "@ + n + " { ... }"@,
        Vm::Class(n, _, _) => "class "@ + n + " { ... }"@,
        Vm::Null => "null"@,
    }
}

/// The position of a value's kind in the declaration order of the union,
/// used by the structural fallback ordering.
pub open spec fn rank(v: Vm) -> int {
    match v {
        Vm::Str(_) => 0,
        Vm::Num(_) => 1,
        Vm::Bool(_) => 2,
        Vm::Arr(_) => 3,
        Vm::Obj(_) => 4,
        Vm::Fun(_, _, _) => 5,
        Vm::Class(_, _, _) => 6,
        Vm::Null => 7,
    }
}

/// Total order on number bits (the IEEE total order).
pub open spec fn tot_cmp(a: u64, b: u64) -> Ordering {
    if total_key(a) < total_key(b) {
        Ordering::Less
    } else if total_key(a) == total_key(b) {
        Ordering::Equal
    } else {
        Ordering::Greater
    }
}

/// Lexicographic structural order on value sequences.
pub open spec fn vseq_cmp(a: Seq<Vm>, b: Seq<Vm>) -> Ordering
    decreases a,
{
    if a.len() == 0 && b.len() == 0 {
        Ordering::Equal
    } else if a.len() == 0 {
        Ordering::Less
    } else if b.len() == 0 {
        Ordering::Greater
    } else {
        match struct_cmp(a[0], b[0]) {
            Ordering::Equal => vseq_cmp(a.drop_first(), b.drop_first()),
            ord => ord,
        }
    }
}

/// Lexicographic structural order on key/value pair sequences: keys first.
pub open spec fn vpairs_cmp(a: Seq<(Seq<char>, Vm)>, b: Seq<(Seq<char>, Vm)>) -> Ordering
    decreases a,
{
    if a.len() == 0 && b.len() == 0 {
        Ordering::Equal
    } else if a.len() == 0 {
        Ordering::Less
    } else if b.len() == 0 {
        Ordering::Greater
    } else {
        match lex_cmp(a[0].0, b[0].0) {
            Ordering::Equal => match struct_cmp(a[0].1, b[0].1) {
                Ordering::Equal => vpairs_cmp(a.drop_first(), b.drop_first()),
                ord => ord,
            },
            ord => ord,
        }
    }
}

/// Structural order over the tagged union itself: kinds in declaration
/// order, then contents; numbers by the IEEE total order; functions and
/// classes by name.
pub open spec fn struct_cmp(v: Vm, o: Vm) -> Ordering
    decreases v,
{
    if rank(v) < rank(o) {
        Ordering::Less
    } else if rank(v) > rank(o) {
        Ordering::Greater
    } else {
        match v {
            Vm::Str(a) => lex_cmp(a, o->Str_0),
            Vm::Num(a) => tot_cmp(a, o->Num_0),
            Vm::Bool(a) => {
                let b = o->Bool_0;
                if a == b {
                    Ordering::Equal
                } else if !a {
                    Ordering::Less
                } else {
                    Ordering::Greater
                }
            },
            Vm::Arr(a) => vseq_cmp(a, o->Arr_0),
            Vm::Obj(a) => vpairs_cmp(a, o->Obj_0),
            Vm::Fun(n, _, _) => lex_cmp(n, o->Fun_0),
            Vm::Class(n, _, _) => lex_cmp(n, o->Class_0),
            Vm::Null => Ordering::Equal,
        }
    }
}

/// The equality switch matching uses: structural agreement of the two
/// values (functions and classes agree when their names do).
pub open spec fn veq(v: Vm, o: Vm) -> bool {
    struct_cmp(v, o) == Ordering::Equal
}

/// The comparison rule behind `==, !=, <, <=, >, >=`: a string orders
/// lexicographically against the other side's text coercion, a number by
/// the total order against the numeric coercion, a boolean against the
/// truthiness coercion; every other kind falls back to the structural
/// order.
pub open spec fn compare_spec(v: Vm, o: Vm) -> Ordering {
    match v {
        Vm::Str(s) => lex_cmp(s, as_string_spec(o)),
        Vm::Num(b) => tot_cmp(b, as_number_spec(o)),
        Vm::Bool(x) => {
            let y = as_bool_spec(o);
            if x == y {
                Ordering::Equal
            } else if !x {
                Ordering::Less
            } else {
                Ordering::Greater
            }
        },
        _ => struct_cmp(v, o),
    }
}

impl Value {
    /// The text this value renders to.
    #[verifier::loop_isolation(false)]
    pub fn as_string(&self) -> (r: String)
        ensures
            r@ == as_string_spec(vm(*self)),
        decreases self,
    {
        match self {
            Value::String(s) => s.clone(),
            Value::Number(b) => crate::num::num_render(*b),
            Value::Boolean(x) => if *x {
                "true".to_owned()
            } else {
                "false".to_owned()
            },
            Value::Array(a) => {
                let ghost va = vms(a@);
                proof {
                    lemma_vms(a@);
                }
                let mut out = String::new();
                let mut i: usize = 0;
                while i < a.len()
                    invariant
                        i <= a@.len(),
                        out@ == join_arr(va.take(i as int)),
                    decreases a@.len() - i,
                {
                    if i > 0 {
                        out.append(",");
                    }
                    let piece = a[i].as_string();
                    out.append(piece.as_str());
                    proof {
                        assert(va.take(i + 1).drop_last() =~= va.take(i as int));
                        assert(va.take(i + 1).last() == vm(a@[i as int]));
                    }
                    i = i + 1;
                }
                proof {
                    assert(va.take(a@.len() as int) =~= va);
                }
                out
            },
            Value::Object(o) => {
                let ghost vo = vprs(o@);
                proof {
                    lemma_vprs(o@);
                }
                let mut out = String::new();
                let mut i: usize = 0;
                while i < o.len()
                    invariant
                        i <= o@.len(),
                        out@ == join_obj(vo.take(i as int)),
                    decreases o@.len() - i,
                {
                    if i > 0 {
                        out.append(", ");
                    }
                    out.append(o[i].0.as_str());
                    out.append(": ");
                    let piece = o[i].1.as_string();
                    out.append(piece.as_str());
                    proof {
                        assert(vo.take(i + 1).drop_last() =~= vo.take(i as int));
                        assert(vo.take(i + 1).last() == (o@[i as int].0@, vm(o@[i as int].1)));
                    }
                    i = i + 1;
                }
                proof {
                    assert(vo.take(o@.len() as int) =~= vo);
                }
                out
            },
            Value::Function(n, _, _) => {
                let mut out = "fun ".to_owned();
                out.append(n.as_str());
                out.append(" { ... }");
                out
            },
            Value::Class(n, _, _) => {
                let mut out = "class ".to_owned();
                out.append(n.as_str());
                out.append(" { ... }");
                out
            },
            Value::Null => "null".to_owned(),
        }
    }

    /// Compares this value with another per [`compare_spec`].
    pub fn compare(&self, value: &Value) -> (r: Ordering)
        ensures
            r == compare_spec(vm(*self), vm(*value)),
    {
        match self {
            Value::String(s) => {
                let other = value.as_string();
                str_cmp(s.as_str(), other.as_str())
            },
            Value::Number(b) => crate::num::num_total_cmp(*b, value.as_number()),
            Value::Boolean(x) => {
                let y = value.as_bool();
                if *x == y {
                    Ordering::Equal
                } else if !*x {
                    Ordering::Less
                } else {
                    Ordering::Greater
                }
            },
            _ => value_cmp(self, value),
        }
    }
}

/// The structural order [`struct_cmp`], executably.
#[verifier::loop_isolation(false)]
pub fn value_cmp(v: &Value, o: &Value) -> (r: Ordering)
    ensures
        r == struct_cmp(vm(*v), vm(*o)),
    decreases v,
{
    let vr = value_rank(v);
    let or = value_rank(o);
    if vr < or {
        return Ordering::Less;
    }
    if vr > or {
        return Ordering::Greater;
    }
    match (v, o) {
        (Value::String(a), Value::String(b)) => str_cmp(a.as_str(), b.as_str()),
        (Value::Number(a), Value::Number(b)) => crate::num::num_total_cmp(*a, *b),
        (Value::Boolean(a), Value::Boolean(b)) => {
            if *a == *b {
                Ordering::Equal
            } else if !*a {
                Ordering::Less
            } else {
                Ordering::Greater
            }
        },
        (Value::Array(a), Value::Array(b)) => {
            let ghost va = vms(a@);
            let ghost vb = vms(b@);
            proof {
                lemma_vms(a@);
                lemma_vms(b@);
                assert(va.skip(0) =~= va);
                assert(vb.skip(0) =~= vb);
            }
            let mut i: usize = 0;
            loop
                invariant
                    i <= a@.len(),
                    i <= b@.len(),
                    struct_cmp(vm(*v), vm(*o)) == vseq_cmp(va.skip(i as int), vb.skip(i as int)),
                decreases a@.len() - i,
            {
                if i >= a.len() && i >= b.len() {
                    return Ordering::Equal;
                } else if i >= a.len() {
                    return Ordering::Less;
                } else if i >= b.len() {
                    return Ordering::Greater;
                }
                let ord = value_cmp(&a[i], &b[i]);
                proof {
                    assert(va.skip(i as int)[0] == vm(a@[i as int]));
                    assert(vb.skip(i as int)[0] == vm(b@[i as int]));
                    assert(va.skip(i as int).drop_first() =~= va.skip(i + 1));
                    assert(vb.skip(i as int).drop_first() =~= vb.skip(i + 1));
                }
                match ord {
                    Ordering::Equal => {
                        i = i + 1;
                    },
                    other_ord => {
                        return other_ord;
                    },
                }
            }
        },
        (Value::Object(a), Value::Object(b)) => {
            let ghost va = vprs(a@);
            let ghost vb = vprs(b@);
            proof {
                lemma_vprs(a@);
                lemma_vprs(b@);
                assert(va.skip(0) =~= va);
                assert(vb.skip(0) =~= vb);
            }
            let mut i: usize = 0;
            loop
                invariant
                    i <= a@.len(),
                    i <= b@.len(),
                    struct_cmp(vm(*v), vm(*o)) == vpairs_cmp(va.skip(i as int), vb.skip(i as int)),
                decreases a@.len() - i,
            {
                if i >= a.len() && i >= b.len() {
                    return Ordering::Equal;
                } else if i >= a.len() {
                    return Ordering::Less;
                } else if i >= b.len() {
                    return Ordering::Greater;
                }
                proof {
                    assert(va.skip(i as int)[0] == (a@[i as int].0@, vm(a@[i as int].1)));
                    assert(vb.skip(i as int)[0] == (b@[i as int].0@, vm(b@[i as int].1)));
                    assert(va.skip(i as int).drop_first() =~= va.skip(i + 1));
                    assert(vb.skip(i as int).drop_first() =~= vb.skip(i + 1));
                }
                let kord = str_cmp(a[i].0.as_str(), b[i].0.as_str());
                match kord {
                    Ordering::Equal => {
                        let vord = value_cmp(&a[i].1, &b[i].1);
                        match vord {
                            Ordering::Equal => {
                                i = i + 1;
                            },
                            other_ord => {
                                return other_ord;
                            },
                        }
                    },
                    other_ord => {
                        return other_ord;
                    },
                }
            }
        },
        (Value::Function(n1, _, _), Value::Function(n2, _, _)) => str_cmp(
            n1.as_str(),
            n2.as_str(),
        ),
        (Value::Class(n1, _, _), Value::Class(n2, _, _)) => str_cmp(n1.as_str(), n2.as_str()),
        _ => Ordering::Equal,
    }
}

/// The kind's position in the declaration order.
pub fn value_rank(v: &Value) -> (r: u8)
    ensures
        r as int == rank(vm(*v)),
{
    match v {
        Value::String(_) => 0,
        Value::Number(_) => 1,
        Value::Boolean(_) => 2,
        Value::Array(_) => 3,
        Value::Object(_) => 4,
        Value::Function(_, _, _) => 5,
        Value::Class(_, _, _) => 6,
        Value::Null => 7,
    }
}

/// Structural agreement of two values, as switch matching uses it.
pub fn value_eq(v: &Value, o: &Value) -> (r: bool)
    ensures
        r == veq(vm(*v), vm(*o)),
{
    match value_cmp(v, o) {
        Ordering::Equal => true,
        _ => false,
    }
}

/// The value bound to `k` in the pair list, or null.
pub open spec fn obj_get(o: Seq<(Seq<char>, Vm)>, k: Seq<char>) -> Vm
    decreases o,
{
    if o.len() == 0 {
        Vm::Null
    } else if o[0].0 == k {
        o[0].1
    } else {
        obj_get(o.drop_first(), k)
    }
}

/// The pair list with `k` bound to `val`: an existing binding is replaced
/// in place, a new key is inserted in ascending key order.
pub open spec fn obj_set(o: Seq<(Seq<char>, Vm)>, k: Seq<char>, val: Vm) -> Seq<(Seq<char>, Vm)>
    decreases o,
{
    if o.len() == 0 {
        seq![(k, val)]
    } else if o[0].0 == k {
        o.update(0, (k, val))
    } else if lex_cmp(k, o[0].0) == Ordering::Less {
        seq![(k, val)] + o
    } else {
        seq![o[0]] + obj_set(o.drop_first(), k, val)
    }
}

/// The object representation invariant: keys strictly ascending in the
/// lexicographic order (so keys are unique and iteration order is key sort
/// order). An empty object has it, and [`obj_set`] preserves it (see the
/// laws), so every object the evaluator builds satisfies it.
pub open spec fn obj_sorted(o: Seq<(Seq<char>, Vm)>) -> bool {
    forall|i: int, j: int|
        0 <= i < j < o.len() ==> #[trigger] lex_cmp(o[i].0, o[j].0) == Ordering::Less
}

/// Where an index value points in a container of length `len`:
/// its truncation toward zero, negative values counting from the end.
pub open spec fn resolve_index_spec(b: u64, len: int) -> int {
    if trunc_of(b) < 0 {
        len + trunc_of(b)
    } else {
        trunc_of(b) as int
    }
}

/// What reading `f` out of container `v` gives: `length` and element reads
/// on strings and arrays, key lookup on objects; any other pairing —
/// a wrong key kind, or a receiver that is no container — is an error.
pub open spec fn get_field_spec(v: Vm, f: Vm) -> Result<Vm, Seq<char>> {
    match v {
        Vm::Str(s) => match f {
            Vm::Str(k) => if k == "length"@ {
                Ok(Vm::Num(of_int(s.len() as i128)))
            } else {
                Ok(Vm::Null)
            },
            Vm::Num(b) => {
                let i = resolve_index_spec(b, s.len() as int);
                if 0 <= i < s.len() {
                    Ok(Vm::Str(seq![s[i]]))
                } else {
                    Err("String index out of range"@)
                }
            },
            _ => Err("Expected number or string"@),
        },
        Vm::Arr(a) => match f {
            Vm::Str(k) => if k == "length"@ {
                Ok(Vm::Num(of_int(a.len() as i128)))
            } else {
                Ok(Vm::Null)
            },
            Vm::Num(b) => {
                let i = resolve_index_spec(b, a.len() as int);
                if 0 <= i < a.len() {
                    Ok(a[i])
                } else {
                    Ok(Vm::Null)
                }
            },
            _ => Err("Expected number or string"@),
        },
        Vm::Obj(o) => match f {
            Vm::Str(k) => Ok(obj_get(o, k)),
            _ => Err("Unknown field"@),
        },
        _ => Err("Cannot read field of this value"@),
    }
}

/// What writing `val` at `f` in container `v` gives: the container with
/// the element replaced (arrays, in-range indices only) or the binding
/// inserted or overwritten (objects); a message otherwise.
pub open spec fn set_field_spec(v: Vm, f: Vm, val: Vm) -> Result<Vm, Seq<char>> {
    match v {
        Vm::Arr(a) => match f {
            Vm::Num(b) => {
                let i = resolve_index_spec(b, a.len() as int);
                if 0 <= i < a.len() {
                    Ok(Vm::Arr(a.update(i, val)))
                } else {
                    Err("Array index out of range"@)
                }
            },
            _ => Err("Expected number"@),
        },
        Vm::Obj(o) => match f {
            Vm::Str(k) => Ok(Vm::Obj(obj_set(o, k, val))),
            _ => Err("Unknown field"@),
        },
        _ => Err("Cannot set field to this value"@),
    }
}

/// Whether the executable result `r` means the ghost result `s`:
/// the same value, or an error carrying the same message.
pub open spec fn res_is(r: Result<Value, Error>, s: Result<Vm, Seq<char>>) -> bool {
    match s {
        Ok(v) => r is Ok && vm(r->Ok_0) == v,
        Err(m) => r is Err && r->Err_0.msg@ == m,
    }
}

/// An error at the default position.
pub fn mk_err(msg: &str) -> (r: Error)
    ensures
        r.msg@ == msg@,
        r.pos@ == seq![0usize, 0usize],
{
    let mut pos: Vec<usize> = Vec::new();
    pos.push(0);
    pos.push(0);
    proof {
        assert(pos@ =~= seq![0usize, 0usize]);
    }
    Error { msg: msg.to_owned(), pos }
}

/// Resolves an index value against a container length: `Some` exactly for
/// in-range resolved positions.
pub fn resolve_index(b: u64, len: usize) -> (r: Option<usize>)
    ensures
        match r {
            Some(i) => 0 <= resolve_index_spec(b, len as int) < len && i == resolve_index_spec(
                b,
                len as int,
            ),
            None => !(0 <= resolve_index_spec(b, len as int) < len),
        },
{
    let t = crate::num::num_trunc(b);
    if t < 0 {
        let s = t + (len as i128);
        if s >= 0 {
            Some(s as usize)
        } else {
            None
        }
    } else {
        if t < (len as i128) {
            Some(t as usize)
        } else {
            None
        }
    }
}

impl Value {
    /// Type-directed field read; see [`get_field_spec`].
    #[verifier::loop_isolation(false)]
    pub fn get_field(&self, field: &Value) -> (r: Result<Value, Error>)
        ensures
            res_is(r, get_field_spec(vm(*self), vm(*field))),
    {
        match self {
            Value::String(s) => match field {
                Value::String(k) => {
                    if str_eq(k.as_str(), "length") {
                        let n = s.as_str().unicode_len();
                        Ok(Value::Number(crate::num::num_of_int(n as i128)))
                    } else {
                        Ok(Value::Null)
                    }
                },
                Value::Number(b) => {
                    let n = s.as_str().unicode_len();
                    match resolve_index(*b, n) {
                        Some(i) => {
                            let c = s.as_str().get_char(i);
                            let mut out = String::new();
                            push_char(&mut out, c);
                            proof {
                                assert(out@ =~= seq![s@[resolve_index_spec(*b, s@.len() as int)]]);
                            }
                            Ok(Value::String(out))
                        },
                        None => Err(mk_err("String index out of range")),
                    }
                },
                _ => Err(mk_err("Expected number or string")),
            },
            Value::Array(a) => {
                proof {
                    lemma_vms(a@);
                }
                match field {
                    Value::String(k) => {
                        if str_eq(k.as_str(), "length") {
                            Ok(Value::Number(crate::num::num_of_int(a.len() as i128)))
                        } else {
                            Ok(Value::Null)
                        }
                    },
                    Value::Number(b) => match resolve_index(*b, a.len()) {
                        Some(i) => Ok(value_clone(&a[i])),
                        None => Ok(Value::Null),
                    },
                    _ => Err(mk_err("Expected number or string")),
                }
            },
            Value::Object(o) => match field {
                Value::String(k) => Ok(obj_lookup(o, k)),
                _ => Err(mk_err("Unknown field")),
            },
            _ => Err(mk_err("Cannot read field of this value")),
        }
    }

    /// Type-directed field write; see [`set_field_spec`].
    #[verifier::loop_isolation(false)]
    pub fn set_field(&self, field: &Value, value: Value) -> (r: Result<Value, Error>)
        ensures
            res_is(r, set_field_spec(vm(*self), vm(*field), vm(value))),
    {
        match self {
            Value::Array(a) => {
                proof {
                    lemma_vms(a@);
                }
                match field {
                    Value::Number(b) => match resolve_index(*b, a.len()) {
                        Some(i) => {
                            let mut out: Vec<Value> = Vec::new();
                            let mut j: usize = 0;
                            while j < a.len()
                                invariant
                                    j <= a@.len(),
                                    out@.len() == j,
                                    i < a@.len(),
                                    forall|t: int|
                                        0 <= t < j ==> vm(out@[t]) == (if t == i {
                                            vm(value)
                                        } else {
                                            vm(a@[t])
                                        }),
                                decreases a@.len() - j,
                            {
                                if j == i {
                                    out.push(value_clone(&value));
                                } else {
                                    out.push(value_clone(&a[j]));
                                }
                                j = j + 1;
                            }
                            proof {
                                lemma_vms(out@);
                                assert(vms(out@) =~= vms(a@).update(i as int, vm(value)));
                            }
                            Ok(Value::Array(out))
                        },
                        None => Err(mk_err("Array index out of range")),
                    },
                    _ => Err(mk_err("Expected number")),
                }
            },
            Value::Object(o) => match field {
                Value::String(k) => Ok(Value::Object(obj_insert(o, k, value))),
                _ => Err(mk_err("Unknown field")),
            },
            _ => Err(mk_err("Cannot set field to this value")),
        }
    }
}

/// Looks `k` up in an object's pair list; null when absent.
#[verifier::loop_isolation(false)]
pub fn obj_lookup(o: &Vec<(String, Value)>, k: &String) -> (r: Value)
    ensures
        vm(r) == obj_get(vprs(o@), k@),
{
    proof {
        lemma_vprs(o@);
    }
    let ghost vo = vprs(o@);
    proof {
        assert(vo.skip(0) =~= vo);
    }
    let mut i: usize = 0;
    while i < o.len()
        invariant
            i <= o@.len(),
            obj_get(vo, k@) == obj_get(vo.skip(i as int), k@),
        decreases o@.len() - i,
    {
        proof {
            assert(vo.skip(i as int)[0] == (o@[i as int].0@, vm(o@[i as int].1)));
            assert(vo.skip(i as int).drop_first() =~= vo.skip(i + 1));
        }
        if str_eq(o[i].0.as_str(), k.as_str()) {
            return value_clone(&o[i].1);
        }
        i = i + 1;
    }
    Value::Null
}

/// Where the first `i` keys order strictly before `k`, `obj_set` either
/// replaces position `i` (same key) or inserts before it.
pub proof fn lemma_obj_set_at(o: Seq<(Seq<char>, Vm)>, k: Seq<char>, val: Vm, i: int)
    requires
        0 <= i <= o.len(),
        forall|t: int| 0 <= t < i ==> lex_cmp(k, o[t].0) == Ordering::Greater,
        i < o.len() ==> (o[i].0 == k || lex_cmp(k, o[i].0) == Ordering::Less),
    ensures
        obj_set(o, k, val) == if i < o.len() && o[i].0 == k {
            o.update(i, (k, val))
        } else {
            o.take(i) + seq![(k, val)] + o.skip(i)
        },
    decreases i,
{
    if i == 0 {
        if 0 < o.len() && o[0].0 == k {
        } else {
            assert(o.take(0) + seq![(k, val)] + o.skip(0) =~= seq![(k, val)] + o);
            if o.len() == 0 {
                assert(obj_set(o, k, val) =~= seq![(k, val)] + o);
            }
        }
    } else {
        if k == o[0].0 {
            lemma_lex_cmp_refl(k, 0);
        }
        assert(o[0].0 != k);
        assert(lex_cmp(k, o[0].0) == Ordering::Greater);
        let d = o.drop_first();
        assert(obj_set(o, k, val) == seq![o[0]] + obj_set(d, k, val));
        assert(forall|t: int| 0 <= t < i - 1 ==> d[t] == o[t + 1]);
        lemma_obj_set_at(d, k, val, i - 1);
        if i < o.len() && o[i].0 == k {
            assert(obj_set(d, k, val) == d.update(i - 1, (k, val)));
            assert(seq![o[0]] + d.update(i - 1, (k, val)) =~= o.update(i, (k, val)));
        } else {
            assert(obj_set(d, k, val) == d.take(i - 1) + seq![(k, val)] + d.skip(i - 1));
            assert(seq![o[0]] + (d.take(i - 1) + seq![(k, val)] + d.skip(i - 1)) =~= o.take(i)
                + seq![(k, val)] + o.skip(i));
        }
    }
}

/// Returns the pair list with `k` bound to `value`, per [`obj_set`].
#[verifier::loop_isolation(false)]
#[verifier::rlimit(60)]
pub fn obj_insert(o: &Vec<(String, Value)>, k: &String, value: Value) -> (r: Vec<(String, Value)>)
    ensures
        vprs(r@) == obj_set(vprs(o@), k@, vm(value)),
{
    proof {
        lemma_vprs(o@);
    }
    let ghost vo = vprs(o@);
    let mut i: usize = 0;
    // Find the position of the key, or of the first greater key.
    loop
        invariant
            i <= o@.len(),
            forall|t: int| 0 <= t < i ==> lex_cmp(k@, vo[t].0) == Ordering::Greater,
        decreases o@.len() - i,
    {
        if i >= o.len() {
            break;
        }
        match str_cmp(k.as_str(), o[i].0.as_str()) {
            Ordering::Equal => {
                proof {
                    assert(k@.subrange(0, 0) =~= o@[i as int].0@.subrange(0, 0));
                    lemma_lex_cmp_eq(k@, o@[i as int].0@, 0);
                }
                break;
            },
            Ordering::Less => {
                break;
            },
            Ordering::Greater => {
                i = i + 1;
            },
        }
    }
    let replacing = i < o.len() && str_eq(o[i].0.as_str(), k.as_str());
    proof {
        if i < o@.len() && !replacing {
            if k@ == vo[i as int].0 {
                lemma_lex_cmp_refl(k@, 0);
            }
        }
        lemma_obj_set_at(vo, k@, vm(value), i as int);
    }
    // Copy the prefix, place the binding, copy the rest.
    let mut out: Vec<(String, Value)> = Vec::new();
    let mut j: usize = 0;
    while j < i
        invariant
            i <= o@.len(),
            j <= i,
            out@.len() == j,
            forall|t: int| 0 <= t < j ==> out@[t].0@ == o@[t].0@ && vm(out@[t].1) == vm(o@[t].1),
        decreases i - j,
    {
        let entry = (o[j].0.clone(), value_clone(&o[j].1));
        out.push(entry);
        j = j + 1;
    }
    out.push((k.clone(), value));
    if replacing {
        let mut j2: usize = i + 1;
        while j2 < o.len()
            invariant
                i < o@.len(),
                i + 1 <= j2 <= o@.len(),
                out@.len() == j2,
                forall|t: int| 0 <= t < i ==> out@[t].0@ == o@[t].0@ && vm(out@[t].1) == vm(o@[t].1),
                out@[i as int].0@ == k@ && vm(out@[i as int].1) == vm(value),
                forall|t: int|
                    i + 1 <= t < j2 ==> out@[t].0@ == o@[t].0@ && vm(out@[t].1) == vm(o@[t].1),
            decreases o@.len() - j2,
        {
            let entry = (o[j2].0.clone(), value_clone(&o[j2].1));
            out.push(entry);
            j2 = j2 + 1;
        }
        proof {
            lemma_vprs(out@);
            assert(vprs(out@) =~= vo.update(i as int, (k@, vm(value))));
        }
    } else {
        let mut j2: usize = i;
        while j2 < o.len()
            invariant
                i <= j2 <= o@.len(),
                out@.len() == j2 + 1,
                forall|t: int| 0 <= t < i ==> out@[t].0@ == o@[t].0@ && vm(out@[t].1) == vm(o@[t].1),
                out@[i as int].0@ == k@ && vm(out@[i as int].1) == vm(value),
                forall|t: int|
                    i + 1 <= t < j2 + 1 ==> out@[t].0@ == o@[t - 1].0@ && vm(out@[t].1) == vm(
                        o@[t - 1].1,
                    ),
            decreases o@.len() - j2,
        {
            let entry = (o[j2].0.clone(), value_clone(&o[j2].1));
            out.push(entry);
            j2 = j2 + 1;
        }
        proof {
            lemma_vprs(out@);
            assert(vprs(out@) =~= vo.take(i as int) + seq![(k@, vm(value))] + vo.skip(i as int));
        }
    }
    out
}

/// The parameter-binding convention: each required parameter consumes one
/// positional argument (an exhausted list is an arity error), each
/// optional one consumes one if available and falls back to its default,
/// and a spread parameter collects all remaining arguments into an array
/// without consuming them for later descriptors. Surplus arguments are
/// dropped.
pub open spec fn reduce_spec(params: Seq<Pm>, args: Seq<Vm>) -> Result<
    Seq<(Seq<char>, Vm)>,
    Seq<char>,
>
    decreases params,
{
    if params.len() == 0 {
        Ok(Seq::empty())
    } else {
        match params[0] {
            Pm::Required(n) => if args.len() == 0 {
                Err("Missing required argument"@)
            } else {
                match reduce_spec(params.drop_first(), args.drop_first()) {
                    Ok(rest) => Ok(seq![(n, args[0])] + rest),
                    Err(e) => Err(e),
                }
            },
            Pm::NotRequired(n, d) => if args.len() == 0 {
                match reduce_spec(params.drop_first(), args) {
                    Ok(rest) => Ok(seq![(n, d)] + rest),
                    Err(e) => Err(e),
                }
            } else {
                match reduce_spec(params.drop_first(), args.drop_first()) {
                    Ok(rest) => Ok(seq![(n, args[0])] + rest),
                    Err(e) => Err(e),
                }
            },
            Pm::Spread(n) => match reduce_spec(params.drop_first(), args) {
                Ok(rest) => Ok(seq![(n, Vm::Arr(args))] + rest),
                Err(e) => Err(e),
            },
        }
    }
}

/// Whether the executable binding list `r` means the ghost result `s`.
pub open spec fn bindings_are(r: Result<Vec<(String, Value)>, Error>, s: Result<
    Seq<(Seq<char>, Vm)>,
    Seq<char>,
>) -> bool {
    match s {
        Ok(ps) => r is Ok && vprs(r->Ok_0@) == ps,
        Err(m) => r is Err && r->Err_0.msg@ == m,
    }
}

impl FunctionArguments {
    /// Binds the evaluated positional arguments to this parameter list,
    /// in parameter order; see [`reduce_spec`].
    #[verifier::loop_isolation(false)]
    #[verifier::rlimit(60)]
    pub fn reduce(&self, args_eval: &Vec<Value>) -> (r: Result<Vec<(String, Value)>, Error>)
        ensures
            bindings_are(r, reduce_spec(pms(self.args@), vms(args_eval@))),
    {
        let ghost ps = pms(self.args@);
        let ghost va = vms(args_eval@);
        proof {
            lemma_pms(self.args@);
            lemma_vms(args_eval@);
            assert(ps.skip(0) =~= ps);
            assert(va.skip(0) =~= va);
        }
        let mut out: Vec<(String, Value)> = Vec::new();
        let mut pi: usize = 0;
        let mut ai: usize = 0;
        while pi < self.args.len()
            invariant
                pi <= self.args@.len(),
                ai <= args_eval@.len(),
                reduce_spec(ps, va) == (match reduce_spec(ps.skip(pi as int), va.skip(ai as int)) {
                    Ok(rest) => Ok::<Seq<(Seq<char>, Vm)>, Seq<char>>(vprs(out@) + rest),
                    Err(e) => Err(e),
                }),
            decreases self.args@.len() - pi,
        {
            proof {
                assert(ps.skip(pi as int)[0] == pm(self.args@[pi as int]));
                assert(ps.skip(pi as int).drop_first() =~= ps.skip(pi + 1));
            }
            let ghost pre = vprs(out@);
            let ghost pre_vars = out@;
            match &self.args[pi] {
                FunctionArgument::Required(n) => {
                    if ai >= args_eval.len() {
                        proof {
                            assert(va.skip(ai as int).len() == 0);
                        }
                        return Err(mk_err("Missing required argument"));
                    }
                    proof {
                        assert(va.skip(ai as int)[0] == vm(args_eval@[ai as int]));
                        assert(va.skip(ai as int).drop_first() =~= va.skip(ai + 1));
                    }
                    let entry = (n.clone(), value_clone(&args_eval[ai]));
                    out.push(entry);
                    proof {
                        assert(out@.drop_last() =~= pre_vars);
                        assert(vprs(out@) =~= pre.push((n@, vm(args_eval@[ai as int]))));
                        assert(forall|rest: Seq<(Seq<char>, Vm)>|
                            pre + (seq![(n@, va.skip(ai as int)[0])] + rest) =~= vprs(out@) + rest);
                    }
                    ai = ai + 1;
                },
                FunctionArgument::NotRequired(n, d) => {
                    if ai >= args_eval.len() {
                        proof {
                            assert(va.skip(ai as int).len() == 0);
                        }
                        let entry = (n.clone(), value_clone(d));
                        out.push(entry);
                        proof {
                            assert(out@.drop_last() =~= pre_vars);
                            assert(vprs(out@) =~= pre.push((n@, vm(*d))));
                            assert(forall|rest: Seq<(Seq<char>, Vm)>|
                                pre + (seq![(n@, vm(*d))] + rest) =~= vprs(out@) + rest);
                        }
                    } else {
                        proof {
                            assert(va.skip(ai as int)[0] == vm(args_eval@[ai as int]));
                            assert(va.skip(ai as int).drop_first() =~= va.skip(ai + 1));
                        }
                        let entry = (n.clone(), value_clone(&args_eval[ai]));
                        out.push(entry);
                        proof {
                            assert(out@.drop_last() =~= pre_vars);
                            assert(vprs(out@) =~= pre.push((n@, vm(args_eval@[ai as int]))));
                            assert(forall|rest: Seq<(Seq<char>, Vm)>|
                                pre + (seq![(n@, va.skip(ai as int)[0])] + rest) =~= vprs(out@)
                                    + rest);
                        }
                        ai = ai + 1;
                    }
                },
                FunctionArgument::Spread(n) => {
                    let mut spread: Vec<Value> = Vec::new();
                    let mut j: usize = ai;
                    while j < args_eval.len()
                        invariant
                            ai <= j <= args_eval@.len(),
                            spread@.len() == j - ai,
                            forall|t: int|
                                0 <= t < j - ai ==> vm(spread@[t]) == vm(args_eval@[t + ai]),
                        decreases args_eval@.len() - j,
                    {
                        spread.push(value_clone(&args_eval[j]));
                        j = j + 1;
                    }
                    proof {
                        lemma_vms(spread@);
                        assert(vms(spread@) =~= va.skip(ai as int));
                    }
                    let entry = (n.clone(), Value::Array(spread));
                    out.push(entry);
                    proof {
                        assert(out@.drop_last() =~= pre_vars);
                        assert(out@.last().0@ == n@);
                        assert(vm(out@.last().1) == Vm::Arr(va.skip(ai as int)));
                        assert(vprs(out@) =~= pre.push((n@, Vm::Arr(va.skip(ai as int)))));
                        assert(forall|rest: Seq<(Seq<char>, Vm)>|
                            pre + (seq![(n@, Vm::Arr(va.skip(ai as int)))] + rest) =~= vprs(out@)
                                + rest);
                    }
                },
            }
            pi = pi + 1;
        }
        proof {
            assert(ps.skip(ps.len() as int) =~= Seq::<Pm>::empty());
            assert(vprs(out@) + Seq::<(Seq<char>, Vm)>::empty() =~= vprs(out@));
        }
        Ok(out)
    }
}

/// Resolves and mutates nested index/key chains against containers:
/// a base value and the evaluated index list of `a.b[0].c`.
#[derive(Debug)]
pub struct FieldAccessor {
    pub value: Value,
    pub fields: Vec<Value>,
}

/// All but the last key: the path to the penultimate container.
pub open spec fn fa_front(fs: Seq<Vm>) -> Seq<Vm> {
    if fs.len() == 0 {
        fs
    } else {
        fs.drop_last()
    }
}

/// The last key, or null for an empty chain.
pub open spec fn fa_last(fs: Seq<Vm>) -> Vm {
    if fs.len() == 0 {
        Vm::Null
    } else {
        fs.last()
    }
}

/// Walking the keys by repeated reads, requiring a container at each step.
pub open spec fn container_spec(v: Vm, fs: Seq<Vm>) -> Result<Vm, Seq<char>>
    decreases fs.len(),
{
    if fs.len() == 0 {
        Ok(v)
    } else if !(v is Str || v is Arr || v is Obj) {
        Err("Array or object expected"@)
    } else {
        match get_field_spec(v, fs[0]) {
            Ok(v2) => container_spec(v2, fs.drop_first()),
            Err(e) => Err(e),
        }
    }
}

/// What reading the whole chain gives: the penultimate container is
/// located, then read once with the last key.
pub open spec fn fa_get_spec(v: Vm, fs: Seq<Vm>) -> Result<Vm, Seq<char>> {
    match container_spec(v, fa_front(fs)) {
        Ok(c) => if c is Str || c is Arr || c is Obj {
            get_field_spec(c, fa_last(fs))
        } else {
            Err("Array, string or object expected"@)
        },
        Err(e) => Err(e),
    }
}

/// What writing `val` through the whole chain gives: the root container
/// with the write carried back through every level, so that re-binding the
/// root variable to the result makes the mutation durable.
pub open spec fn fa_set_spec(v: Vm, fs: Seq<Vm>, val: Vm) -> Result<Vm, Seq<char>>
    decreases fs.len(),
{
    if fs.len() == 0 {
        Err("Array or object expected"@)
    } else if fs.len() == 1 {
        if v is Arr || v is Obj {
            set_field_spec(v, fs[0], val)
        } else {
            Err("Array or object expected"@)
        }
    } else if !(v is Str || v is Arr || v is Obj) {
        Err("Array or object expected"@)
    } else {
        match get_field_spec(v, fs[0]) {
            Ok(child) => match fa_set_spec(child, fs.drop_first(), val) {
                Ok(new_child) => set_field_spec(v, fs[0], new_child),
                Err(e) => Err(e),
            },
            Err(e) => Err(e),
        }
    }
}

impl FieldAccessor {
    pub fn new(value: Value, fields: Vec<Value>) -> (r: FieldAccessor)
        ensures
            r.value == value,
            r.fields == fields,
    {
        FieldAccessor { value, fields }
    }

    /// The last key of the chain, or null.
    pub fn last(&self) -> (r: Value)
        ensures
            vm(r) == fa_last(vms(self.fields@)),
    {
        proof {
            lemma_vms(self.fields@);
        }
        if self.fields.len() == 0 {
            Value::Null
        } else {
            value_clone(&self.fields[self.fields.len() - 1])
        }
    }

    /// The key at position `i`, or null.
    pub fn by_index(&self, i: usize) -> (r: Value)
        ensures
            vm(r) == if i < self.fields@.len() {
                vms(self.fields@)[i as int]
            } else {
                Vm::Null
            },
    {
        proof {
            lemma_vms(self.fields@);
        }
        if i < self.fields.len() {
            value_clone(&self.fields[i])
        } else {
            Value::Null
        }
    }

    /// Walks all but the last key, producing the penultimate container.
    #[verifier::loop_isolation(false)]
    pub fn get_container(&self) -> (r: Result<Value, Error>)
        ensures
            res_is(r, container_spec(vm(self.value), fa_front(vms(self.fields@)))),
    {
        let ghost front = fa_front(vms(self.fields@));
        proof {
            lemma_vms(self.fields@);
            assert(front.skip(0) =~= front);
        }
        let mut cur = value_clone(&self.value);
        if self.fields.len() == 0 {
            return Ok(cur);
        }
        let steps = self.fields.len() - 1;
        let mut i: usize = 0;
        while i < steps
            invariant
                i <= steps,
                steps == self.fields@.len() - 1,
                front.len() == steps,
                container_spec(vm(self.value), front) == container_spec(
                    vm(cur),
                    front.skip(i as int),
                ),
            decreases steps - i,
        {
            proof {
                assert(front[i as int] == vms(self.fields@)[i as int]);
                assert(front.skip(i as int)[0] == front[i as int]);
                assert(front.skip(i as int).drop_first() =~= front.skip(i + 1));
            }
            let is_container = match &cur {
                Value::String(_) => true,
                Value::Array(_) => true,
                Value::Object(_) => true,
                _ => false,
            };
            if !is_container {
                return Err(mk_err("Array or object expected"));
            }
            match cur.get_field(&self.fields[i]) {
                Ok(next) => {
                    cur = next;
                },
                Err(e) => {
                    return Err(e);
                },
            }
            i = i + 1;
        }
        proof {
            assert(front.skip(steps as int) =~= Seq::<Vm>::empty());
        }
        Ok(cur)
    }

    /// Reads the chain; see [`fa_get_spec`].
    pub fn get(&self) -> (r: Result<Value, Error>)
        ensures
            res_is(r, fa_get_spec(vm(self.value), vms(self.fields@))),
    {
        let container = match self.get_container() {
            Ok(c) => c,
            Err(e) => {
                return Err(e);
            },
        };
        let last = self.last();
        match &container {
            Value::String(_) => container.get_field(&last),
            Value::Array(_) => container.get_field(&last),
            Value::Object(_) => container.get_field(&last),
            _ => Err(mk_err("Array, string or object expected")),
        }
    }

    /// Writes `value` through the chain, carrying the mutation back
    /// through every level; see [`fa_set_spec`]. The caller must re-bind
    /// the returned root container to the root variable: values have copy
    /// semantics, so a field mutation is durable only when the whole
    /// containing variable is re-assigned.
    pub fn set(&self, value: Value) -> (r: Result<Value, Error>)
        ensures
            res_is(r, fa_set_spec(vm(self.value), vms(self.fields@), vm(value))),
    {
        proof {
            lemma_vms(self.fields@);
            assert(vms(self.fields@).skip(0) =~= vms(self.fields@));
        }
        set_path(&self.value, &self.fields, 0, value)
    }
}

/// Writes `val` at the chain `fields[i..]` under `v`, rebuilding each
/// container along the way; see [`fa_set_spec`].
#[verifier::loop_isolation(false)]
pub fn set_path(v: &Value, fields: &Vec<Value>, i: usize, val: Value) -> (r: Result<Value, Error>)
    requires
        i <= fields@.len(),
    ensures
        res_is(r, fa_set_spec(vm(*v), vms(fields@).skip(i as int), vm(val))),
    decreases fields@.len() - i,
{
    let ghost fs = vms(fields@).skip(i as int);
    proof {
        lemma_vms(fields@);
        if i < fields@.len() {
            assert(fs[0] == vm(fields@[i as int]));
            assert(fs.drop_first() =~= vms(fields@).skip(i + 1));
        }
    }
    if i >= fields.len() {
        return Err(mk_err("Array or object expected"));
    }
    if i == fields.len() - 1 {
        return match v {
            Value::Array(_) => v.set_field(&fields[i], val),
            Value::Object(_) => v.set_field(&fields[i], val),
            _ => Err(mk_err("Array or object expected")),
        };
    }
    let is_container = match v {
        Value::String(_) => true,
        Value::Array(_) => true,
        Value::Object(_) => true,
        _ => false,
    };
    if !is_container {
        return Err(mk_err("Array or object expected"));
    }
    let child = match v.get_field(&fields[i]) {
        Ok(c) => c,
        Err(e) => {
            return Err(e);
        },
    };
    let new_child = match set_path(&child, fields, i + 1, val) {
        Ok(c) => c,
        Err(e) => {
            return Err(e);
        },
    };
    v.set_field(&fields[i], new_child)
}

} // verus!
