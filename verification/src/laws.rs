//! Laws of the value model and the evaluator, stated and proved once over
//! the same specifications the public functions carry.
use vstd::prelude::*;

use core::cmp::Ordering;

use crate::ast::Nm;
use crate::interpreter::{
    binary_spec, eval, eval_nodes, unary_spec, Ev, St,
};
use crate::num::{is_finite_bits, trunc_of, num_parse, num_render};
use crate::strutil::lex_cmp;
use crate::types::{
    get_field_spec, obj_get, obj_set, obj_sorted, reduce_spec, resolve_index_spec, set_field_spec,
    Pm, Fim, Vm,
};
use crate::ast::BinaryOp;
use crate::ast::UnaryOp;

verus! {

broadcast use {vstd::std_specs::vec::group_vec_axioms, vstd::seq::group_seq_axioms};

/// Rendering a finite number and parsing the rendering back yields the
/// same number: the numeric round-trip law, demonstrated executably.
pub fn render_reparses(b: u64) -> (r: bool)
    ensures
        is_finite_bits(b) ==> r,
{
    let rendered = num_render(b);
    match num_parse(rendered.as_str()) {
        Some(back) => back == b,
        None => false,
    }
}

/// Looking a key up in an object right after binding it yields the bound
/// value, whatever the object held before.
pub proof fn lemma_obj_write_then_read(o: Seq<(Seq<char>, Vm)>, k: Seq<char>, v: Vm)
    ensures
        obj_get(obj_set(o, k, v), k) == v,
    decreases o,
{
    if o.len() == 0 {
    } else if o[0].0 == k {
        assert(obj_set(o, k, v)[0] == (k, v));
    } else if lex_cmp(k, o[0].0) == Ordering::Less {
        assert(obj_set(o, k, v)[0] == (k, v));
    } else {
        lemma_obj_write_then_read(o.drop_first(), k, v);
        assert(obj_set(o, k, v)[0] == o[0]);
        assert(obj_set(o, k, v).drop_first() =~= obj_set(o.drop_first(), k, v));
    }
}

/// The write-then-read law: reading a field right after writing it yields
/// the written value, for array indices the container resolves and for
/// every object key.
pub proof fn lemma_write_then_read(container: Vm, k: Vm, v: Vm)
    requires
        set_field_spec(container, k, v) is Ok,
    ensures
        get_field_spec(set_field_spec(container, k, v)->Ok_0, k) == Ok::<Vm, Seq<char>>(v),
{
    match container {
        Vm::Arr(a) => {
            let i = resolve_index_spec(k->Num_0, a.len() as int);
            assert(a.update(i, v)[i] == v);
        },
        Vm::Obj(o) => {
            lemma_obj_write_then_read(o, k->Str_0, v);
        },
        _ => {},
    }
}

/// Negative indices count from the end: an index that truncates to `-1`
/// reads the same array element as one that truncates to `len - 1`.
pub proof fn lemma_negative_index(a: Seq<Vm>, b1: u64, b2: u64)
    requires
        a.len() >= 1,
        trunc_of(b1) == -1,
        trunc_of(b2) == a.len() - 1,
    ensures
        get_field_spec(Vm::Arr(a), Vm::Num(b1)) == get_field_spec(Vm::Arr(a), Vm::Num(b2)),
{
    assert(resolve_index_spec(b1, a.len() as int) == a.len() - 1);
    assert(resolve_index_spec(b2, a.len() as int) == a.len() - 1);
}

/// Null is the identity of `+` and negates under `-`, for every numeric
/// right operand: `Null + x == x` and `Null - x == -x`.
pub proof fn lemma_null_identity_and_negation(b: u64, st: St, fuel: nat)
    requires
        fuel >= 2,
    ensures
        eval(
            Nm::Binary(BinaryOp::PLUS, Box::new(Nm::Null), Box::new(Nm::Num(b))),
            st,
            fuel,
        ) == Ev::Succ(Vm::Num(b), st),
        eval(
            Nm::Binary(BinaryOp::MINUS, Box::new(Nm::Null), Box::new(Nm::Num(b))),
            st,
            fuel,
        ) == eval(Nm::Unary(UnaryOp::MINUS, Box::new(Nm::Num(b))), st, fuel),
{
    let f = (fuel - 1) as nat;
    assert(eval(Nm::Null, st, f) == Ev::Succ(Vm::Null, st));
    assert(eval(Nm::Num(b), st, f) == Ev::Succ(Vm::Num(b), st));
    assert(binary_spec(BinaryOp::PLUS, Vm::Null, Vm::Num(b)) == Vm::Num(b));
    assert(binary_spec(BinaryOp::MINUS, Vm::Null, Vm::Num(b)) == unary_spec(
        UnaryOp::MINUS,
        Vm::Num(b),
    ));
}

/// Spread binding: with parameters `(a, ...rest)`, the first argument
/// binds to `a` and all remaining arguments, in order, to `rest`.
pub proof fn lemma_spread_binding(an: Seq<char>, rn: Seq<char>, args: Seq<Vm>)
    requires
        args.len() >= 1,
    ensures
        reduce_spec(seq![Pm::Required(an), Pm::Spread(rn)], args) == Ok::<
            Seq<(Seq<char>, Vm)>,
            Seq<char>,
        >(seq![(an, args[0]), (rn, Vm::Arr(args.drop_first()))]),
{
    let ps = seq![Pm::Required(an), Pm::Spread(rn)];
    assert(ps.drop_first() =~= seq![Pm::Spread(rn)]);
    assert(ps.drop_first().drop_first() =~= Seq::<Pm>::empty());
    assert(reduce_spec(ps.drop_first().drop_first(), args.drop_first()) == Ok::<
        Seq<(Seq<char>, Vm)>,
        Seq<char>,
    >(Seq::empty()));
    assert(seq![(rn, Vm::Arr(args.drop_first()))] + Seq::<(Seq<char>, Vm)>::empty() =~= seq![
        (rn, Vm::Arr(args.drop_first())),
    ]);
    assert(reduce_spec(ps.drop_first(), args.drop_first()) == Ok::<
        Seq<(Seq<char>, Vm)>,
        Seq<char>,
    >(seq![(rn, Vm::Arr(args.drop_first()))]));
    assert(seq![(an, args[0])] + seq![(rn, Vm::Arr(args.drop_first()))] =~= seq![
        (an, args[0]),
        (rn, Vm::Arr(args.drop_first())),
    ]);
}

/// Optional-parameter default: with parameters `(x, y = d)` and a single
/// argument, the argument binds to `x` and the default to `y`.
pub proof fn lemma_optional_default(xn: Seq<char>, yn: Seq<char>, d: Vm, args: Seq<Vm>)
    requires
        args.len() == 1,
    ensures
        reduce_spec(seq![Pm::Required(xn), Pm::NotRequired(yn, d)], args) == Ok::<
            Seq<(Seq<char>, Vm)>,
            Seq<char>,
        >(seq![(xn, args[0]), (yn, d)]),
{
    let ps = seq![Pm::Required(xn), Pm::NotRequired(yn, d)];
    assert(ps.drop_first() =~= seq![Pm::NotRequired(yn, d)]);
    assert(ps.drop_first().drop_first() =~= Seq::<Pm>::empty());
    assert(args.drop_first().len() == 0);
    assert(reduce_spec(ps.drop_first().drop_first(), args.drop_first()) == Ok::<
        Seq<(Seq<char>, Vm)>,
        Seq<char>,
    >(Seq::empty()));
    assert(seq![(yn, d)] + Seq::<(Seq<char>, Vm)>::empty() =~= seq![(yn, d)]);
    assert(reduce_spec(ps.drop_first(), args.drop_first()) == Ok::<
        Seq<(Seq<char>, Vm)>,
        Seq<char>,
    >(seq![(yn, d)]));
    assert(seq![(xn, args[0])] + seq![(yn, d)] =~= seq![(xn, args[0]), (yn, d)]);
}

/// Scope shadowing: a call to a script function never changes the
/// caller's frames. Whatever the body binds lives in the call's own
/// scope; after the call, the frames are exactly those left by evaluating
/// the callee and the arguments.
pub proof fn lemma_call_keeps_caller_frames(c: Nm, args: Seq<Nm>, st: St, fuel: nat)
    requires
        fuel >= 1,
    ensures
        ({
            let f = (fuel - 1) as nat;
            match eval(c, st, f) {
                Ev::Succ(fv, st1) => match eval_nodes(args, st1, f) {
                    Ok((vals, st2)) => (fv matches Vm::Fun(_, ps, fi) && fi matches
                        Fim::FromNode(_)) ==> (match eval(
                        Nm::FunCall(Box::new(c), args),
                        st,
                        fuel,
                    ) {
                        Ev::Succ(_, st9) => st9.frames == st2.frames,
                        Ev::Fail(_, st9) => st9.frames == st2.frames,
                    }),
                    Err(_) => true,
                },
                Ev::Fail(_, _) => true,
            }
        }),
{
}

/// String multiplication repeats the string: dispatch is on the left
/// operand's kind alone, so a string on the left repeats, while any other
/// left kind works numerically.
pub proof fn lemma_string_multiplication(s: Seq<char>, v2: Vm)
    ensures
        binary_spec(BinaryOp::MULTIPLY, Vm::Str(s), v2) == Vm::Str(
            crate::strutil::repeat_text(
                s,
                crate::interpreter::repeat_count(crate::types::as_number_spec(v2)),
            ),
        ),
        forall|b: u64, w: Vm|
            #[trigger] binary_spec(BinaryOp::MULTIPLY, Vm::Num(b), w) == Vm::Num(
                crate::num::mul_of(b, crate::types::as_number_spec(w)),
            ),
{
}

/// Every key of the written object is the written key or one the object
/// already had.
pub proof fn lemma_obj_set_keys(o: Seq<(Seq<char>, Vm)>, k: Seq<char>, v: Vm)
    ensures
        forall|t: int|
            0 <= t < obj_set(o, k, v).len() ==> (#[trigger] obj_set(o, k, v)[t].0 == k || exists|
                j: int,
            |
                0 <= j < o.len() && o[j].0 == obj_set(o, k, v)[t].0),
    decreases o,
{
    if o.len() == 0 {
    } else if o[0].0 == k {
    } else if lex_cmp(k, o[0].0) == Ordering::Less {
        assert forall|t: int| 0 <= t < obj_set(o, k, v).len() implies (#[trigger] obj_set(
            o,
            k,
            v,
        )[t].0 == k || exists|j: int| 0 <= j < o.len() && o[j].0 == obj_set(o, k, v)[t].0) by {
            if t > 0 {
                assert(o[t - 1].0 == obj_set(o, k, v)[t].0);
            }
        }
    } else {
        lemma_obj_set_keys(o.drop_first(), k, v);
        let rest = obj_set(o.drop_first(), k, v);
        assert(obj_set(o, k, v) == seq![o[0]] + rest);
        assert forall|t: int| 0 <= t < obj_set(o, k, v).len() implies (#[trigger] obj_set(
            o,
            k,
            v,
        )[t].0 == k || exists|j: int| 0 <= j < o.len() && o[j].0 == obj_set(o, k, v)[t].0) by {
            if t == 0 {
                assert(o[0].0 == obj_set(o, k, v)[0].0);
            } else {
                assert(obj_set(o, k, v)[t] == rest[t - 1]);
                if rest[t - 1].0 != k {
                    let j = choose|j: int|
                        0 <= j < o.drop_first().len() && o.drop_first()[j].0 == rest[t - 1].0;
                    assert(o[j + 1].0 == rest[t - 1].0);
                }
            }
        }
    }
}

/// Binding a key keeps the object's keys strictly ascending: the
/// representation invariant of objects is preserved by every write.
pub proof fn lemma_obj_set_sorted(o: Seq<(Seq<char>, Vm)>, k: Seq<char>, v: Vm)
    requires
        obj_sorted(o),
    ensures
        obj_sorted(obj_set(o, k, v)),
    decreases o,
{
    let res = obj_set(o, k, v);
    if o.len() == 0 {
    } else if o[0].0 == k {
        assert forall|i: int, j: int| 0 <= i < j < res.len() implies #[trigger] lex_cmp(
            res[i].0,
            res[j].0,
        ) == Ordering::Less by {
            assert(res[i].0 == o[i].0);
            assert(res[j].0 == o[j].0);
        }
    } else if lex_cmp(k, o[0].0) == Ordering::Less {
        assert forall|i: int, j: int| 0 <= i < j < res.len() implies #[trigger] lex_cmp(
            res[i].0,
            res[j].0,
        ) == Ordering::Less by {
            if i == 0 {
                assert(res[j].0 == o[j - 1].0);
                if j > 1 {
                    assert(lex_cmp(o[0].0, o[j - 1].0) == Ordering::Less);
                    crate::strutil::lemma_lex_cmp_trans(k, o[0].0, o[j - 1].0, 0);
                }
            } else {
                assert(res[i].0 == o[i - 1].0);
                assert(res[j].0 == o[j - 1].0);
                assert(lex_cmp(o[i - 1].0, o[j - 1].0) == Ordering::Less);
            }
        }
    } else {
        assert(obj_sorted(o.drop_first())) by {
            assert(forall|i: int, j: int|
                0 <= i < j < o.drop_first().len() ==> #[trigger] lex_cmp(
                    o.drop_first()[i].0,
                    o.drop_first()[j].0,
                ) == lex_cmp(o[i + 1].0, o[j + 1].0));
        }
        lemma_obj_set_sorted(o.drop_first(), k, v);
        lemma_obj_set_keys(o.drop_first(), k, v);
        let rest = obj_set(o.drop_first(), k, v);
        assert(res == seq![o[0]] + rest);
        if lex_cmp(k, o[0].0) == Ordering::Equal {
            assert(k.subrange(0, 0) =~= o[0].0.subrange(0, 0));
            crate::strutil::lemma_lex_cmp_eq(k, o[0].0, 0);
        }
        crate::strutil::lemma_lex_cmp_flip(o[0].0, k, 0);
        assert(lex_cmp(o[0].0, k) == Ordering::Less);
        assert forall|i: int, j: int| 0 <= i < j < res.len() implies #[trigger] lex_cmp(
            res[i].0,
            res[j].0,
        ) == Ordering::Less by {
            if i == 0 {
                assert(res[j] == rest[j - 1]);
                if rest[j - 1].0 == k {
                    assert(lex_cmp(o[0].0, rest[j - 1].0) == Ordering::Less);
                } else {
                    let t = choose|t: int|
                        0 <= t < o.drop_first().len() && o.drop_first()[t].0 == rest[j - 1].0;
                    assert(o[t + 1].0 == rest[j - 1].0);
                    assert(lex_cmp(o[0].0, o[t + 1].0) == Ordering::Less);
                }
            } else {
                assert(res[i] == rest[i - 1]);
                assert(res[j] == rest[j - 1]);
                assert(lex_cmp(rest[i - 1].0, rest[j - 1].0) == Ordering::Less);
            }
        }
    }
}

} // verus!
