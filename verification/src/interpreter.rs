//! The tree-walking evaluator: reduces an AST node to a value inside a
//! given scope, implementing control flow, operator semantics and function
//! invocation.
//!
//! Every step is specified by the ghost interpreter [`eval`] over the ghost
//! state [`St`]; [`walk_tree`] is proved to agree with it. Evaluation
//! carries a step budget (`fuel`): each nesting level and loop iteration
//! costs one unit, and an exhausted budget reports an error, which models
//! the host's bounded call stack.
use vstd::prelude::*;

use crate::ast::{
    cm, cms, lemma_cms, lemma_nms, lemma_nprs, lemma_strs, nm, nms, nprs, strs, AssignmentOp,
    BinaryOp, Cm, LogicalOp, Nm, Node, SwitchCase, UnaryOp,
};
use crate::modules::{import_module, import_spec};
use crate::num::{
    add_of, ceil_of, div_of, floor_of, is_finite_bits, mul_of, neg_bits, of_int, rem_of, round_of,
    sub_of, trunc_of, NAN_BITS, ONE_BITS, SIGN_BIT, ZERO_BITS,
};
use crate::scope::{assoc_set, frames_get, sframes, Scope};
use crate::strutil::repeat_text;
use crate::types::{
    as_bool_spec, as_number_spec, as_string_spec, bindings_are, compare_spec, fa_get_spec,
    fa_set_spec, fim, lemma_pms, lemma_vms, lemma_vprs, mk_err, obj_set, pm, pms, reduce_spec,
    res_is, tot_cmp, value_clone, value_eq, veq, vm, vms, vprs, Builtin, FieldAccessor, FuncImpl,
    FunctionArguments, Pm, Fim, Value, Vm,
};
use crate::Error;

verus! {

broadcast use {vstd::std_specs::vec::group_vec_axioms, vstd::seq::group_seq_axioms};

/// The host-facing side effects of a run: the process arguments, the
/// queued input lines `read` consumes, the output transcript `write` and
/// `log` append to, and the queued entropy words `random` consumes.
#[derive(Debug)]
pub struct Io {
    pub args: Vec<String>,
    pub input: Vec<String>,
    pub in_pos: usize,
    pub output: Vec<String>,
    pub entropy: Vec<u64>,
    pub ent_pos: usize,
}

/// The ghost mirror of [`Io`]: only what is still to be consumed and what
/// has been produced.
pub ghost struct Im {
    pub args: Seq<Seq<char>>,
    pub input: Seq<Seq<char>>,
    pub output: Seq<Seq<char>>,
    pub entropy: Seq<u64>,
}

/// The consumption positions never pass the ends of their queues.
pub open spec fn io_wf(io: Io) -> bool {
    io.in_pos <= io.input@.len() && io.ent_pos <= io.entropy@.len()
}

/// The ghost value of the I/O state.
pub open spec fn iview(io: Io) -> Im {
    Im {
        args: strs(io.args@),
        input: strs(io.input@).skip(io.in_pos as int),
        output: strs(io.output@),
        entropy: io.entropy@.skip(io.ent_pos as int),
    }
}

/// The whole evaluation state: the scope chain's frames and the I/O state.
pub ghost struct St {
    pub frames: Seq<Seq<(Seq<char>, Vm)>>,
    pub io: Im,
}

/// An evaluation outcome: a value or an error message, with the state as
/// the step left it.
pub ghost enum Ev {
    Succ(Vm, St),
    Fail(Seq<char>, St),
}

/// `st` with `n` bound in the innermost frame.
pub open spec fn st_set(st: St, n: Seq<char>, v: Vm) -> St {
    St { frames: st.frames.update(0, assoc_set(st.frames[0], n, v)), io: st.io }
}

/// The value `n` resolves to in `st`.
pub open spec fn st_get(st: St, n: Seq<char>) -> Vm {
    frames_get(st.frames, n)
}

/// The value the innermost frame itself binds to `n`, or null: what
/// re-binding a name reports as the previous value.
pub open spec fn st_get_local(st: St, n: Seq<char>) -> Vm {
    crate::scope::assoc_get(st.frames[0], n)
}

/// One step of exponentiation by a non-negative integer: repeated IEEE
/// multiplication, starting from one.
pub open spec fn pow_nat(base: u64, e: nat) -> u64
    decreases e,
{
    if e == 0 {
        ONE_BITS
    } else {
        mul_of(pow_nat(base, (e - 1) as nat), base)
    }
}

/// The exponent operator: for an exponent that is exactly an integer,
/// repeated IEEE multiplication (the reciprocal of it for negative
/// exponents); NaN for any other exponent.
pub open spec fn pow_bits(base: u64, exp: u64) -> u64 {
    let t = trunc_of(exp);
    if !is_finite_bits(exp) || of_int(t) != exp {
        NAN_BITS
    } else if t >= 0 {
        pow_nat(base, t as nat)
    } else {
        div_of(ONE_BITS, pow_nat(base, (-t) as nat))
    }
}

/// The repetition count string multiplication uses: truncation toward
/// zero, negative values and NaN to zero, saturated at the machine limit.
pub open spec fn repeat_count(b: u64) -> nat {
    let t = trunc_of(b);
    if t < 0 {
        0nat
    } else if t > usize::MAX {
        usize::MAX as nat
    } else {
        t as nat
    }
}

/// Binary arithmetic, dispatched on the left operand's kind; the right
/// operand is coerced to match.
pub open spec fn binary_spec(op: BinaryOp, v1: Vm, v2: Vm) -> Vm {
    match op {
        BinaryOp::PLUS => match v1 {
            Vm::Str(s) => Vm::Str(s + as_string_spec(v2)),
            Vm::Num(b) => Vm::Num(add_of(b, as_number_spec(v2))),
            Vm::Bool(_) => Vm::Num(add_of(as_number_spec(v1), as_number_spec(v2))),
            Vm::Null => v2,
            _ => Vm::Str(as_string_spec(v1) + as_string_spec(v2)),
        },
        BinaryOp::MINUS => match v1 {
            Vm::Num(b) => Vm::Num(sub_of(b, as_number_spec(v2))),
            Vm::Bool(_) => Vm::Num(sub_of(as_number_spec(v1), as_number_spec(v2))),
            Vm::Null => Vm::Num(neg_bits(as_number_spec(v2))),
            _ => Vm::Num(NAN_BITS),
        },
        BinaryOp::MULTIPLY => match v1 {
            Vm::Str(s) => Vm::Str(repeat_text(s, repeat_count(as_number_spec(v2)))),
            Vm::Num(b) => Vm::Num(mul_of(b, as_number_spec(v2))),
            Vm::Bool(_) => Vm::Num(mul_of(as_number_spec(v1), as_number_spec(v2))),
            Vm::Null => Vm::Num(ZERO_BITS),
            _ => Vm::Num(NAN_BITS),
        },
        BinaryOp::DIVIDE => match v1 {
            Vm::Str(_) => Vm::Num(div_of(as_number_spec(v1), as_number_spec(v2))),
            Vm::Num(b) => Vm::Num(div_of(b, as_number_spec(v2))),
            Vm::Bool(_) => Vm::Num(div_of(as_number_spec(v1), as_number_spec(v2))),
            Vm::Null => Vm::Num(ZERO_BITS),
            _ => Vm::Num(NAN_BITS),
        },
        BinaryOp::REMAINDER => match v1 {
            Vm::Str(_) => Vm::Num(rem_of(as_number_spec(v1), as_number_spec(v2))),
            Vm::Num(b) => Vm::Num(rem_of(b, as_number_spec(v2))),
            Vm::Bool(_) => Vm::Num(rem_of(as_number_spec(v1), as_number_spec(v2))),
            Vm::Null => Vm::Num(ZERO_BITS),
            _ => Vm::Num(NAN_BITS),
        },
        BinaryOp::EXPONENT => match v1 {
            Vm::Str(_) => Vm::Num(pow_bits(as_number_spec(v1), as_number_spec(v2))),
            Vm::Num(b) => Vm::Num(pow_bits(b, as_number_spec(v2))),
            Vm::Bool(_) => Vm::Num(pow_bits(as_number_spec(v1), as_number_spec(v2))),
            Vm::Null => Vm::Num(ZERO_BITS),
            _ => Vm::Num(NAN_BITS),
        },
    }
}

/// Unary operators: numeric negation (NaN for container and function
/// kinds, negative zero for null), boolean negation via truthiness.
pub open spec fn unary_spec(op: UnaryOp, v: Vm) -> Vm {
    match op {
        UnaryOp::MINUS => match v {
            Vm::Str(_) => Vm::Num(neg_bits(as_number_spec(v))),
            Vm::Num(b) => Vm::Num(neg_bits(b)),
            Vm::Bool(_) => Vm::Num(neg_bits(as_number_spec(v))),
            Vm::Null => Vm::Num(SIGN_BIT),
            _ => Vm::Num(NAN_BITS),
        },
        UnaryOp::NOT => Vm::Bool(!as_bool_spec(v)),
    }
}

/// Logical and comparison operators over two eagerly evaluated operands.
pub open spec fn logical_spec(op: LogicalOp, v1: Vm, v2: Vm) -> Vm {
    let ord = compare_spec(v1, v2);
    match op {
        LogicalOp::AND => Vm::Bool(as_bool_spec(v1) && as_bool_spec(v2)),
        LogicalOp::OR => Vm::Bool(as_bool_spec(v1) || as_bool_spec(v2)),
        LogicalOp::EQ => Vm::Bool(ord == core::cmp::Ordering::Equal),
        LogicalOp::NOTEQ => Vm::Bool(ord != core::cmp::Ordering::Equal),
        LogicalOp::GT => Vm::Bool(ord == core::cmp::Ordering::Greater),
        LogicalOp::GTEQ => Vm::Bool(
            ord == core::cmp::Ordering::Greater || ord == core::cmp::Ordering::Equal,
        ),
        LogicalOp::LT => Vm::Bool(ord == core::cmp::Ordering::Less),
        LogicalOp::LTEQ => Vm::Bool(
            ord == core::cmp::Ordering::Less || ord == core::cmp::Ordering::Equal,
        ),
    }
}

/// How a compound assignment combines the current and the incoming value:
/// `+=` concatenates when the current value is a string, the other
/// operators work numerically.
pub open spec fn combine_spec(op: AssignmentOp, initial: Vm, set: Vm) -> Vm {
    match op {
        AssignmentOp::EQ => set,
        AssignmentOp::PLUSEQ => match initial {
            Vm::Str(s) => Vm::Str(s + as_string_spec(set)),
            _ => Vm::Num(add_of(as_number_spec(initial), as_number_spec(set))),
        },
        AssignmentOp::MINUSEQ => Vm::Num(sub_of(as_number_spec(initial), as_number_spec(set))),
        AssignmentOp::MULEQ => Vm::Num(mul_of(as_number_spec(initial), as_number_spec(set))),
        AssignmentOp::DIVEQ => Vm::Num(div_of(as_number_spec(initial), as_number_spec(set))),
        AssignmentOp::REMEQ => Vm::Num(rem_of(as_number_spec(initial), as_number_spec(set))),
        AssignmentOp::EXPEQ => Vm::Num(pow_bits(as_number_spec(initial), as_number_spec(set))),
    }
}

/// A letter, as identifiers start.
pub open spec fn is_letter(c: char) -> bool {
    ('a' <= c && c <= 'z') || ('A' <= c && c <= 'Z')
}

/// A decimal digit.
pub open spec fn is_digit(c: char) -> bool {
    '0' <= c && c <= '9'
}

/// A character that may continue an identifier.
pub open spec fn is_ident_char(c: char) -> bool {
    is_letter(c) || is_digit(c) || c == '_'
}

/// The number of identifier characters running from `i`.
pub open spec fn ident_len(s: Seq<char>, i: int) -> int
    decreases s.len() - i,
{
    if i < 0 || i >= s.len() || !is_ident_char(s[i]) {
        0
    } else {
        1 + ident_len(s, i + 1)
    }
}

/// String interpolation: every `$identifier` substring is replaced by the
/// rendering of what the scope binds to the identifier (an unresolved name
/// renders as `null`); everything else is kept.
pub open spec fn interp_spec(s: Seq<char>, frames: Seq<Seq<(Seq<char>, Vm)>>) -> Seq<char>
    decreases s.len(),
    via interp_spec_dec
{
    if s.len() == 0 {
        Seq::empty()
    } else if s[0] == '$' && s.len() > 1 && is_letter(s[1]) {
        let l = ident_len(s, 1);
        let name = s.subrange(1, 1 + l);
        as_string_spec(frames_get(frames, name)) + interp_spec(s.skip(1 + l), frames)
    } else {
        seq![s[0]] + interp_spec(s.drop_first(), frames)
    }
}

/// The identifier run from `i` is well bounded.
pub proof fn lemma_ident_len(s: Seq<char>, i: int)
    requires
        0 <= i <= s.len(),
    ensures
        0 <= ident_len(s, i),
        i + ident_len(s, i) <= s.len(),
    decreases s.len() - i,
{
    if i < s.len() && is_ident_char(s[i]) {
        lemma_ident_len(s, i + 1);
    }
}

#[via_fn]
proof fn interp_spec_dec(s: Seq<char>, frames: Seq<Seq<(Seq<char>, Vm)>>) {
    if s.len() > 1 && s[0] == '$' && is_letter(s[1]) {
        lemma_ident_len(s, 1);
    }
}

/// The renderings of the values joined by single spaces: a `log` line.
pub open spec fn join_space(a: Seq<Vm>) -> Seq<char>
    decreases a,
{
    if a.len() == 0 {
        Seq::empty()
    } else if a.len() == 1 {
        as_string_spec(a[0])
    } else {
        join_space(a.drop_last()) + " "@ + as_string_spec(a.last())
    }
}

/// A frame holding the given bindings, applied in order over an empty one.
pub open spec fn bind_frame(binds: Seq<(Seq<char>, Vm)>) -> Seq<(Seq<char>, Vm)>
    decreases binds.len(),
{
    if binds.len() == 0 {
        Seq::empty()
    } else {
        assoc_set(bind_frame(binds.drop_last()), binds.last().0, binds.last().1)
    }
}

/// The value `name` carries in a builtin's bindings, or null.
pub open spec fn bget(binds: Seq<(Seq<char>, Vm)>, name: Seq<char>) -> Vm {
    crate::scope::assoc_get(binds, name)
}

/// The double the `random` builtin derives from one entropy word: the
/// word's top 53 bits scaled into the unit interval.
pub open spec fn random_bits(e: u64) -> u64 {
    mul_of(of_int((e >> 11) as i128), 0x3ca0_0000_0000_0000)
}

/// What a builtin call gives: the coercions are pure; `write` appends its
/// space-joined arguments to the output; `read` takes the next input line
/// (null when none is queued); `random` derives a number from the next
/// entropy word (zero when none is queued); the math builtins work on the
/// numeric coercions of their arguments.
pub open spec fn builtin_spec(b: Builtin, binds: Seq<(Seq<char>, Vm)>, io: Im) -> (Vm, Im) {
    match b {
        Builtin::Num => (Vm::Num(as_number_spec(bget(binds, "any"@))), io),
        Builtin::Str => (Vm::Str(as_string_spec(bget(binds, "any"@))), io),
        Builtin::Bool => (Vm::Bool(as_bool_spec(bget(binds, "any"@))), io),
        Builtin::Write => match bget(binds, "vals"@) {
            Vm::Arr(vals) => (Vm::Null, Im { output: io.output.push(join_space(vals)), ..io }),
            _ => (Vm::Null, io),
        },
        Builtin::Read => if io.input.len() > 0 {
            (Vm::Str(io.input[0]), Im { input: io.input.drop_first(), ..io })
        } else {
            (Vm::Null, io)
        },
        Builtin::Pow => (
            Vm::Num(
                pow_bits(
                    as_number_spec(bget(binds, "num"@)),
                    as_number_spec(bget(binds, "pow"@)),
                ),
            ),
            io,
        ),
        Builtin::Abs => (Vm::Num(crate::num::abs_bits(as_number_spec(bget(binds, "num"@)))), io),
        Builtin::Ceil => (Vm::Num(ceil_of(as_number_spec(bget(binds, "num"@)))), io),
        Builtin::Floor => (Vm::Num(floor_of(as_number_spec(bget(binds, "num"@)))), io),
        Builtin::Round => (Vm::Num(round_of(as_number_spec(bget(binds, "num"@)))), io),
        Builtin::Random => if io.entropy.len() > 0 {
            (Vm::Num(random_bits(io.entropy[0])), Im { entropy: io.entropy.drop_first(), ..io })
        } else {
            (Vm::Num(ZERO_BITS), io)
        },
        Builtin::Max => {
            let v1 = bget(binds, "num1"@);
            let v2 = bget(binds, "num2"@);
            if tot_cmp(as_number_spec(v1), as_number_spec(v2)) == core::cmp::Ordering::Less {
                (v2, io)
            } else {
                (v1, io)
            }
        },
        Builtin::Min => {
            let v1 = bget(binds, "num1"@);
            let v2 = bget(binds, "num2"@);
            if tot_cmp(as_number_spec(v1), as_number_spec(v2)) == core::cmp::Ordering::Greater {
                (v2, io)
            } else {
                (v1, io)
            }
        },
    }
}

/// The error message for calling a value that is not a function, named
/// after the callee where the call site names one.
pub open spec fn not_a_function_msg(callee: Nm) -> Seq<char> {
    match callee {
        Nm::Var(name) => name + " is not a function"@,
        Nm::FieldAccess(v, _) => match *v {
            Nm::Var(name) => name + " is not a function"@,
            _ => "undefined is not a function"@,
        },
        _ => "undefined is not a function"@,
    }
}

/// The ghost interpreter: what evaluating `n` in state `st` with the given
/// step budget yields. One budget unit is spent per nesting level, loop
/// iteration and call.
pub open spec fn eval(n: Nm, st: St, fuel: nat) -> Ev
    decreases fuel, 0int, 0int,
{
    if fuel == 0 {
        Ev::Fail("Evaluation budget exhausted"@, st)
    } else {
        let f = (fuel - 1) as nat;
        match n {
            Nm::Import(m) => match import_spec(m, None, st.io.args) {
                Ok(v) => Ev::Succ(Vm::Null, st_set(st, m, v)),
                Err(e) => Ev::Fail(e, st),
            },
            Nm::ImportFrom(m, names) => match import_spec(m, Some(names), st.io.args) {
                Ok(v) => match v {
                    Vm::Obj(pairs) => Ev::Succ(Vm::Null, bind_pairs(st, pairs)),
                    _ => Ev::Succ(Vm::Null, st),
                },
                Err(e) => Ev::Fail(e, st),
            },
            Nm::Block(ss) => eval_block(ss, st, f),
            Nm::Assign(variable, value) => match *variable {
                Nm::Var(name) => match eval(*value, st, f) {
                    Ev::Succ(v, st1) => Ev::Succ(st_get_local(st1, name), st_set(st1, name, v)),
                    Ev::Fail(e, st1) => Ev::Fail(e, st1),
                },
                _ => Ev::Fail("Unexpected assign"@, st),
            },
            Nm::AssignOp(op, variable, value) => match eval(*variable, st, f) {
                Ev::Succ(initial, st1) => match eval(*value, st1, f) {
                    Ev::Succ(setv, st2) => {
                        let combined = combine_spec(op, initial, setv);
                        match *variable {
                            Nm::Var(name) => Ev::Succ(Vm::Null, st_set(st2, name, combined)),
                            Nm::FieldAccess(var, indices) => match *var {
                                Nm::Var(name) => match eval(*var, st2, f) {
                                    Ev::Succ(base, st3) => {
                                        let (fields, st4) = eval_fields(indices, st3, f);
                                        match fa_set_spec(base, fields, combined) {
                                            Ok(container) => Ev::Succ(
                                                Vm::Null,
                                                st_set(st4, name, container),
                                            ),
                                            Err(e) => Ev::Fail(e, st4),
                                        }
                                    },
                                    Ev::Fail(e, st3) => Ev::Fail(e, st3),
                                },
                                _ => Ev::Succ(Vm::Null, st2),
                            },
                            _ => Ev::Succ(Vm::Null, st2),
                        }
                    },
                    Ev::Fail(e, st2) => Ev::Fail(e, st2),
                },
                Ev::Fail(e, st1) => Ev::Fail(e, st1),
            },
            Nm::Var(name) => Ev::Succ(st_get(st, name), st),
            Nm::FieldAccess(variable, indices) => match eval(*variable, st, f) {
                Ev::Succ(base, st1) => {
                    let (fields, st2) = eval_fields(indices, st1, f);
                    match fa_get_spec(base, fields) {
                        Ok(v) => Ev::Succ(v, st2),
                        Err(e) => Ev::Fail(e, st2),
                    }
                },
                Ev::Fail(e, st1) => Ev::Fail(e, st1),
            },
            Nm::Str(text) => Ev::Succ(Vm::Str(interp_spec(text, st.frames)), st),
            Nm::Num(b) => Ev::Succ(Vm::Num(b), st),
            Nm::Bool(x) => Ev::Succ(Vm::Bool(x), st),
            Nm::Null => Ev::Succ(Vm::Null, st),
            Nm::Arr(elems) => match eval_nodes(elems, st, f) {
                Ok((vals, st1)) => Ev::Succ(Vm::Arr(vals), st1),
                Err((e, st1)) => Ev::Fail(e, st1),
            },
            Nm::Obj(entries) => match eval_obj(entries, Seq::empty(), st, f) {
                Ok((pairs, st1)) => Ev::Succ(Vm::Obj(pairs), st1),
                Err((e, st1)) => Ev::Fail(e, st1),
            },
            Nm::Ternary(cond, t, e) => match eval(*cond, st, f) {
                Ev::Succ(c, st1) => if as_bool_spec(c) {
                    eval(*t, st1, f)
                } else {
                    eval(*e, st1, f)
                },
                Ev::Fail(m, st1) => Ev::Fail(m, st1),
            },
            Nm::Logical(op, n1, n2) => match eval(*n1, st, f) {
                Ev::Succ(v1, st1) => match eval(*n2, st1, f) {
                    Ev::Succ(v2, st2) => Ev::Succ(logical_spec(op, v1, v2), st2),
                    Ev::Fail(m, st2) => Ev::Fail(m, st2),
                },
                Ev::Fail(m, st1) => Ev::Fail(m, st1),
            },
            Nm::Binary(op, n1, n2) => match eval(*n1, st, f) {
                Ev::Succ(v1, st1) => match eval(*n2, st1, f) {
                    Ev::Succ(v2, st2) => Ev::Succ(binary_spec(op, v1, v2), st2),
                    Ev::Fail(m, st2) => Ev::Fail(m, st2),
                },
                Ev::Fail(m, st1) => Ev::Fail(m, st1),
            },
            Nm::Unary(op, n1) => match eval(*n1, st, f) {
                Ev::Succ(v, st1) => Ev::Succ(unary_spec(op, v), st1),
                Ev::Fail(m, st1) => Ev::Fail(m, st1),
            },
            Nm::Fun(variable, params, body) => match *variable {
                Nm::Var(name) => Ev::Succ(
                    st_get_local(st, name),
                    st_set(st, name, Vm::Fun(name, params, Fim::FromNode(*body))),
                ),
                _ => Ev::Succ(Vm::Null, st),
            },
            Nm::Class(name, cons, methods) => match eval_obj(methods, Seq::empty(), st, f) {
                Ok((prot, st1)) => match cons {
                    Some(c) => match eval(*c, st1, f) {
                        Ev::Succ(cv, st2) => Ev::Succ(
                            st_get_local(st2, name),
                            st_set(st2, name, Vm::Class(name, Some(Box::new(cv)), prot)),
                        ),
                        Ev::Fail(m, st2) => Ev::Fail(m, st2),
                    },
                    None => Ev::Succ(
                        st_get_local(st1, name),
                        st_set(st1, name, Vm::Class(name, None, prot)),
                    ),
                },
                Err((e, st1)) => Ev::Fail(e, st1),
            },
            Nm::FunCall(callee, args) => match eval(*callee, st, f) {
                Ev::Succ(fv, st1) => match eval_nodes(args, st1, f) {
                    Ok((vals, st2)) => match fv {
                        Vm::Fun(_, params, fimpl) => match reduce_spec(params, vals) {
                            Ok(binds) => match fimpl {
                                Fim::FromNode(body) => {
                                    let inner = St {
                                        frames: seq![bind_frame(binds)] + st2.frames,
                                        io: st2.io,
                                    };
                                    match eval(body, inner, f) {
                                        Ev::Succ(v, st3) => Ev::Succ(
                                            v,
                                            St { frames: st2.frames, io: st3.io },
                                        ),
                                        Ev::Fail(m, st3) => Ev::Fail(
                                            m,
                                            St { frames: st2.frames, io: st3.io },
                                        ),
                                    }
                                },
                                Fim::Builtin(b) => {
                                    let (v, io2) = builtin_spec(b, binds, st2.io);
                                    Ev::Succ(v, St { frames: st2.frames, io: io2 })
                                },
                            },
                            Err(m) => Ev::Fail(m, st2),
                        },
                        _ => Ev::Fail(not_a_function_msg(*callee), st2),
                    },
                    Err((m, st2)) => Ev::Fail(m, st2),
                },
                Ev::Fail(m, st1) => Ev::Fail(m, st1),
            },
            Nm::IfElse(cond, t, e) => match eval(*cond, st, f) {
                Ev::Succ(c, st1) => if as_bool_spec(c) {
                    eval(*t, st1, f)
                } else {
                    match e {
                        Some(en) => eval(*en, st1, f),
                        None => Ev::Succ(Vm::Null, st1),
                    }
                },
                Ev::Fail(m, st1) => Ev::Fail(m, st1),
            },
            Nm::While(cond, body) => match eval(*cond, st, f) {
                Ev::Succ(c, st1) => if as_bool_spec(c) {
                    let st2 = eval_state(*body, st1, f);
                    eval(Nm::While(cond, body), st2, f)
                } else {
                    Ev::Succ(Vm::Null, st1)
                },
                Ev::Fail(m, st1) => Ev::Fail(m, st1),
            },
            Nm::For(var, iterable, body) => match eval(*iterable, st, f) {
                Ev::Succ(items, st1) => match items {
                    Vm::Str(s) => Ev::Succ(
                        Vm::Null,
                        eval_for(var, s.map_values(|c: char| Vm::Str(seq![c])), *body, st1, f),
                    ),
                    Vm::Arr(vals) => Ev::Succ(Vm::Null, eval_for(var, vals, *body, st1, f)),
                    _ => Ev::Fail("Value cannot be iterated"@, st1),
                },
                Ev::Fail(m, st1) => Ev::Fail(m, st1),
            },
            Nm::Switch(subject, cases) => match eval(*subject, st, f) {
                Ev::Succ(subj, st1) => eval_switch(cases, subj, st1, f),
                Ev::Fail(m, st1) => Ev::Fail(m, st1),
            },
            Nm::Return(v) => eval(*v, st, f),
            _ => Ev::Succ(Vm::Null, st),
        }
    }
}

/// The state after an evaluation whose result (value or error) is
/// discarded, as loop bodies are.
pub open spec fn eval_state(n: Nm, st: St, fuel: nat) -> St
    decreases fuel, 1int, 0int,
{
    match eval(n, st, fuel) {
        Ev::Succ(_, st1) => st1,
        Ev::Fail(_, st1) => st1,
    }
}

/// A statement list: statements run in order; a top-level `return`
/// statement ends the block with its value; otherwise the block is null.
pub open spec fn eval_block(ss: Seq<Nm>, st: St, fuel: nat) -> Ev
    decreases fuel, 1int, ss.len(),
{
    if ss.len() == 0 {
        Ev::Succ(Vm::Null, st)
    } else {
        match ss[0] {
            Nm::Return(v) => eval(*v, st, fuel),
            other => match eval(other, st, fuel) {
                Ev::Succ(_, st1) => eval_block(ss.drop_first(), st1, fuel),
                Ev::Fail(m, st1) => Ev::Fail(m, st1),
            },
        }
    }
}

/// Evaluates nodes left to right, stopping at the first error.
pub open spec fn eval_nodes(ns: Seq<Nm>, st: St, fuel: nat) -> Result<(Seq<Vm>, St), (Seq<char>, St)>
    decreases fuel, 1int, ns.len(),
{
    if ns.len() == 0 {
        Ok((Seq::empty(), st))
    } else {
        match eval(ns[0], st, fuel) {
            Ev::Succ(v, st1) => match eval_nodes(ns.drop_first(), st1, fuel) {
                Ok((rest, st2)) => Ok((seq![v] + rest, st2)),
                Err(e) => Err(e),
            },
            Ev::Fail(m, st1) => Err((m, st1)),
        }
    }
}

/// Evaluates index nodes left to right; a failing index becomes null and
/// its side effects up to the failure are kept.
pub open spec fn eval_fields(ns: Seq<Nm>, st: St, fuel: nat) -> (Seq<Vm>, St)
    decreases fuel, 1int, ns.len(),
{
    if ns.len() == 0 {
        (Seq::empty(), st)
    } else {
        match eval(ns[0], st, fuel) {
            Ev::Succ(v, st1) => {
                let (rest, st2) = eval_fields(ns.drop_first(), st1, fuel);
                (seq![v] + rest, st2)
            },
            Ev::Fail(_, st1) => {
                let (rest, st2) = eval_fields(ns.drop_first(), st1, fuel);
                (seq![Vm::Null] + rest, st2)
            },
        }
    }
}

/// Evaluates an object literal's entries in stored order, inserting each
/// into the accumulated key-sorted pair list; a later duplicate key
/// overwrites an earlier one.
pub open spec fn eval_obj(entries: Seq<(Seq<char>, Nm)>, acc: Seq<(Seq<char>, Vm)>, st: St, fuel: nat) -> Result<
    (Seq<(Seq<char>, Vm)>, St),
    (Seq<char>, St),
>
    decreases fuel, 1int, entries.len(),
{
    if entries.len() == 0 {
        Ok((acc, st))
    } else {
        match eval(entries[0].1, st, fuel) {
            Ev::Succ(v, st1) => eval_obj(
                entries.drop_first(),
                obj_set(acc, entries[0].0, v),
                st1,
                fuel,
            ),
            Ev::Fail(m, st1) => Err((m, st1)),
        }
    }
}

/// Runs a loop body once per item, binding the loop variable in the
/// enclosing scope each time; body errors are discarded.
pub open spec fn eval_for(var: Seq<char>, items: Seq<Vm>, body: Nm, st: St, fuel: nat) -> St
    decreases fuel, 2int, items.len(),
{
    if items.len() == 0 {
        st
    } else {
        let st1 = eval_state(body, st_set(st, var, items[0]), fuel);
        eval_for(var, items.drop_first(), body, st1, fuel)
    }
}

/// Binds a set of pairs into the innermost frame, in order.
pub open spec fn bind_pairs(st: St, pairs: Seq<(Seq<char>, Vm)>) -> St
    decreases pairs.len(),
{
    if pairs.len() == 0 {
        st
    } else {
        bind_pairs(st_set(st, pairs[0].0, pairs[0].1), pairs.drop_first())
    }
}

/// Scans switch arms in source order: a case whose value agrees with the
/// subject runs the first statement at or after it (falling through empty
/// cases); a default reached by the scan runs unconditionally; running out
/// of arms is an error.
pub open spec fn eval_switch(cases: Seq<Cm>, subj: Vm, st: St, fuel: nat) -> Ev
    decreases fuel, 2int, cases.len(),
{
    if cases.len() == 0 {
        Ev::Fail("No case matched"@, st)
    } else {
        match cases[0] {
            Cm::Default(stmt) => eval(stmt, st, fuel),
            Cm::Case(vn, _) => match eval(vn, st, fuel) {
                Ev::Succ(v, st1) => if veq(v, subj) {
                    switch_run(cases, st1, fuel)
                } else {
                    eval_switch(cases.drop_first(), subj, st1, fuel)
                },
                Ev::Fail(m, st1) => Ev::Fail(m, st1),
            },
        }
    }
}

/// Runs the first statement at or after the matched arm, skipping empty
/// cases (fallthrough).
pub open spec fn switch_run(cases: Seq<Cm>, st: St, fuel: nat) -> Ev
    decreases fuel, 1int, cases.len(),
{
    if cases.len() == 0 {
        Ev::Fail("No case matched"@, st)
    } else {
        match cases[0] {
            Cm::Default(stmt) => eval(stmt, st, fuel),
            Cm::Case(_, Some(stmt)) => eval(stmt, st, fuel),
            Cm::Case(_, None) => switch_run(cases.drop_first(), st, fuel),
        }
    }
}

/// Whether `c` is a letter, executably.
pub fn char_is_letter(c: char) -> (r: bool)
    ensures
        r == is_letter(c),
{
    ('a' <= c && c <= 'z') || ('A' <= c && c <= 'Z')
}

/// Whether `c` is a decimal digit, executably.
pub fn char_is_digit(c: char) -> (r: bool)
    ensures
        r == is_digit(c),
{
    '0' <= c && c <= '9'
}

/// Whether `c` may continue an identifier, executably.
pub fn char_is_ident(c: char) -> (r: bool)
    ensures
        r == is_ident_char(c),
{
    char_is_letter(c) || ('0' <= c && c <= '9') || c == '_'
}

/// A full identifier run has exactly the scanned length.
pub proof fn lemma_ident_len_exact(s: Seq<char>, start: int, end: int)
    requires
        0 <= start <= end <= s.len(),
        forall|t: int| start <= t < end ==> is_ident_char(s[t]),
        end == s.len() || !is_ident_char(s[end]),
    ensures
        ident_len(s, start) == end - start,
    decreases end - start,
{
    if start < end {
        lemma_ident_len_exact(s, start + 1, end);
    }
}

/// Exponentiation by an integer-valued exponent; see [`pow_bits`].
#[verifier::loop_isolation(false)]
pub fn num_pow(base: u64, exp: u64) -> (r: u64)
    ensures
        r == pow_bits(base, exp),
{
    let t = crate::num::num_trunc(exp);
    if !crate::num::num_is_finite(exp) || crate::num::num_of_int(t) != exp {
        return NAN_BITS;
    }
    let e: u128 = if t >= 0 {
        t as u128
    } else {
        (-(t + 1)) as u128 + 1
    };
    let mut acc: u64 = ONE_BITS;
    let mut i: u128 = 0;
    while i < e
        invariant
            i <= e,
            acc == pow_nat(base, i as nat),
        decreases e - i,
    {
        acc = crate::num::num_mul(acc, base);
        i = i + 1;
    }
    if t >= 0 {
        acc
    } else {
        crate::num::num_div(ONE_BITS, acc)
    }
}

/// The value bound to `name` in a builtin's bindings, or null.
#[verifier::loop_isolation(false)]
pub fn binds_get(binds: &Vec<(String, Value)>, name: &str) -> (r: Value)
    ensures
        vm(r) == bget(vprs(binds@), name@),
{
    proof {
        lemma_vprs(binds@);
        assert(vprs(binds@).skip(0) =~= vprs(binds@));
    }
    let ghost vo = vprs(binds@);
    let mut i: usize = 0;
    while i < binds.len()
        invariant
            i <= binds@.len(),
            bget(vo, name@) == bget(vo.skip(i as int), name@),
        decreases binds@.len() - i,
    {
        proof {
            assert(vo.skip(i as int)[0] == (binds@[i as int].0@, vm(binds@[i as int].1)));
            assert(vo.skip(i as int).drop_first() =~= vo.skip(i + 1));
        }
        if crate::strutil::str_eq(binds[i].0.as_str(), name) {
            return value_clone(&binds[i].1);
        }
        i = i + 1;
    }
    Value::Null
}

/// A deep copy of a scope chain with the same frames.
pub fn scope_clone(s: &Scope) -> (r: Scope)
    ensures
        sframes(r) == sframes(*s),
        r.filename@ == s.filename@,
    decreases s,
{
    let prev: Option<Box<Scope>> = match &s.previous {
        Some(p) => Some(Box::new(scope_clone(p))),
        None => None,
    };
    let mut vars: Vec<(String, Value)> = Vec::new();
    let mut i: usize = 0;
    #[verifier::loop_isolation(false)]
    while i < s.variables.len()
        invariant
            i <= s.variables@.len(),
            vars@.len() == i,
            forall|j: int|
                0 <= j < i ==> vars@[j].0@ == s.variables@[j].0@ && vm(vars@[j].1) == vm(
                    s.variables@[j].1,
                ),
        decreases s.variables@.len() - i,
    {
        let entry = (s.variables[i].0.clone(), value_clone(&s.variables[i].1));
        vars.push(entry);
        i = i + 1;
    }
    proof {
        lemma_vprs(vars@);
        lemma_vprs(s.variables@);
        assert(vprs(vars@) =~= vprs(s.variables@));
    }
    let r = Scope { previous: prev, variables: vars, filename: s.filename.clone() };
    proof {
        assert(sframes(r) =~= sframes(*s));
    }
    r
}

/// Interpolates `$identifier` references in `text` against `scope`;
/// see [`interp_spec`].
#[verifier::loop_isolation(false)]
pub fn create_string_in(text: &str, scope: &Scope) -> (r: String)
    ensures
        r@ == interp_spec(text@, sframes(*scope)),
{
    let ghost fr = sframes(*scope);
    let n = text.unicode_len();
    let mut out = String::new();
    let mut i: usize = 0;
    proof {
        assert(text@.skip(0) =~= text@);
    }
    while i < n
        invariant
            i <= n,
            n == text@.len(),
            interp_spec(text@, fr) == out@ + interp_spec(text@.skip(i as int), fr),
        decreases n - i,
    {
        let ghost suffix = text@.skip(i as int);
        proof {
            assert(suffix[0] == text@[i as int]);
            assert(suffix.drop_first() =~= text@.skip(i + 1));
        }
        let c = text.get_char(i);
        if c == '$' && i + 1 < n && char_is_letter(text.get_char(i + 1)) {
            proof {
                assert(suffix.len() > 1 && suffix[1] == text@[i + 1]);
            }
            let mut j: usize = i + 1;
            while j < n && char_is_ident(text.get_char(j))
                invariant
                    i + 1 <= j <= n,
                    forall|t: int| i + 1 <= t < j ==> is_ident_char(text@[t]),
                decreases n - j,
            {
                j = j + 1;
            }
            proof {
                lemma_ident_len_exact(text@, i + 1, j as int);
                lemma_ident_len_exact(suffix, 1, (j - i) as int);
                assert(forall|t: int|
                    1 <= t < j - i ==> suffix[t] == text@[t + i] && is_ident_char(suffix[t]));
                assert(ident_len(suffix, 1) == j - i - 1);
                assert(suffix.subrange(1, (j - i) as int) =~= text@.subrange(i + 1, j as int));
                assert(suffix.skip((j - i) as int) =~= text@.skip(j as int));
            }
            let name = text.substring_char(i + 1, j);
            let value = scope.get(&name.to_owned());
            let rendering = value.as_string();
            out.append(rendering.as_str());
            i = j;
        } else {
            crate::strutil::push_char(&mut out, c);
            proof {
                assert(out@ =~= out@.drop_last() + seq![suffix[0]]);
            }
            i = i + 1;
        }
    }
    proof {
        assert(text@.skip(n as int) =~= Seq::<char>::empty());
        assert(out@ + interp_spec(text@.skip(n as int), fr) =~= out@);
    }
    out
}

/// Renders values space-joined, as one `log` line; see [`join_space`].
#[verifier::loop_isolation(false)]
pub fn render_line(vals: &Vec<Value>) -> (r: String)
    ensures
        r@ == join_space(vms(vals@)),
{
    let ghost va = vms(vals@);
    proof {
        lemma_vms(vals@);
    }
    let mut out = String::new();
    let mut i: usize = 0;
    while i < vals.len()
        invariant
            i <= vals@.len(),
            out@ == join_space(va.take(i as int)),
        decreases vals@.len() - i,
    {
        if i > 0 {
            out.append(" ");
        }
        let piece = vals[i].as_string();
        out.append(piece.as_str());
        proof {
            assert(va.take(i + 1).drop_last() =~= va.take(i as int));
            assert(va.take(i + 1).last() == vm(vals@[i as int]));
        }
        i = i + 1;
    }
    proof {
        assert(va.take(vals@.len() as int) =~= va);
    }
    out
}

/// Combines the current and the incoming value of a compound assignment;
/// see [`combine_spec`].
pub fn combine_assign(op: AssignmentOp, initial: &Value, set: &Value) -> (r: Value)
    ensures
        vm(r) == combine_spec(op, vm(*initial), vm(*set)),
{
    match op {
        AssignmentOp::EQ => value_clone(set),
        AssignmentOp::PLUSEQ => match initial {
            Value::String(s) => {
                let mut out = s.clone();
                let piece = set.as_string();
                out.append(piece.as_str());
                Value::String(out)
            },
            _ => Value::Number(crate::num::num_add(initial.as_number(), set.as_number())),
        },
        AssignmentOp::MINUSEQ => Value::Number(
            crate::num::num_sub(initial.as_number(), set.as_number()),
        ),
        AssignmentOp::MULEQ => Value::Number(
            crate::num::num_mul(initial.as_number(), set.as_number()),
        ),
        AssignmentOp::DIVEQ => Value::Number(
            crate::num::num_div(initial.as_number(), set.as_number()),
        ),
        AssignmentOp::REMEQ => Value::Number(
            crate::num::num_rem(initial.as_number(), set.as_number()),
        ),
        AssignmentOp::EXPEQ => Value::Number(num_pow(initial.as_number(), set.as_number())),
    }
}

/// Runs a builtin over its bound arguments; see [`builtin_spec`].
pub fn apply_builtin(b: Builtin, binds: &Vec<(String, Value)>, io: &mut Io) -> (r: Value)
    requires
        io_wf(*old(io)),
    ensures
        io_wf(*final(io)),
        builtin_spec(b, vprs(binds@), iview(*old(io))) == (vm(r), iview(*final(io))),
{
    match b {
        Builtin::Num => Value::Number(binds_get(binds, "any").as_number()),
        Builtin::Str => Value::String(binds_get(binds, "any").as_string()),
        Builtin::Bool => Value::Boolean(binds_get(binds, "any").as_bool()),
        Builtin::Write => {
            match binds_get(binds, "vals") {
                Value::Array(vals) => {
                    let line = render_line(&vals);
                    let ghost old_out = io.output@;
                    io.output.push(line);
                    proof {
                        lemma_strs(io.output@);
                        lemma_strs(old_out);
                        assert(strs(io.output@) =~= strs(old_out).push(join_space(vms(vals@))));
                    }
                    Value::Null
                },
                _ => Value::Null,
            }
        },
        Builtin::Read => {
            if io.in_pos < io.input.len() {
                let line = io.input[io.in_pos].clone();
                let ghost old_pos = io.in_pos as int;
                io.in_pos = io.in_pos + 1;
                proof {
                    lemma_strs(io.input@);
                    assert(strs(io.input@).skip(old_pos)[0] == io.input@[old_pos]@);
                    assert(strs(io.input@).skip(old_pos).drop_first() =~= strs(io.input@).skip(
                        old_pos + 1,
                    ));
                }
                Value::String(line)
            } else {
                proof {
                    lemma_strs(io.input@);
                    assert(strs(io.input@).skip(io.in_pos as int).len() == 0);
                }
                Value::Null
            }
        },
        Builtin::Pow => Value::Number(
            num_pow(binds_get(binds, "num").as_number(), binds_get(binds, "pow").as_number()),
        ),
        Builtin::Abs => Value::Number(
            crate::num::num_abs_bits(binds_get(binds, "num").as_number()),
        ),
        Builtin::Ceil => Value::Number(crate::num::num_ceil(binds_get(binds, "num").as_number())),
        Builtin::Floor => Value::Number(
            crate::num::num_floor(binds_get(binds, "num").as_number()),
        ),
        Builtin::Round => Value::Number(
            crate::num::num_round(binds_get(binds, "num").as_number()),
        ),
        Builtin::Random => {
            if io.ent_pos < io.entropy.len() {
                let e = io.entropy[io.ent_pos];
                let ghost old_pos = io.ent_pos as int;
                io.ent_pos = io.ent_pos + 1;
                proof {
                    assert(io.entropy@.skip(old_pos)[0] == e);
                    assert(io.entropy@.skip(old_pos).drop_first() =~= io.entropy@.skip(
                        old_pos + 1,
                    ));
                }
                Value::Number(crate::num::num_mul(crate::num::num_of_int((e >> 11) as i128), 0x3ca0_0000_0000_0000))
            } else {
                proof {
                    assert(io.entropy@.skip(io.ent_pos as int).len() == 0);
                }
                Value::Number(ZERO_BITS)
            }
        },
        Builtin::Max => {
            let v1 = binds_get(binds, "num1");
            let v2 = binds_get(binds, "num2");
            match crate::num::num_total_cmp(v1.as_number(), v2.as_number()) {
                core::cmp::Ordering::Less => v2,
                _ => v1,
            }
        },
        Builtin::Min => {
            let v1 = binds_get(binds, "num1");
            let v2 = binds_get(binds, "num2");
            match crate::num::num_total_cmp(v1.as_number(), v2.as_number()) {
                core::cmp::Ordering::Greater => v2,
                _ => v1,
            }
        },
    }
}

/// The evaluation state a scope and an I/O record stand for.
pub open spec fn st_of(scope: Scope, io: Io) -> St {
    St { frames: sframes(scope), io: iview(io) }
}

/// Whether the executable outcome `r`, with the machine left in `scope`
/// and `io`, means the ghost outcome `res`.
pub open spec fn agrees(r: Result<Value, Error>, res: Ev, scope: Scope, io: Io) -> bool {
    match res {
        Ev::Succ(v, st) => r is Ok && vm(r->Ok_0) == v && sframes(scope) == st.frames && iview(io)
            == st.io,
        Ev::Fail(m, st) => r is Err && r->Err_0.msg@ == m && sframes(scope) == st.frames && iview(
            io,
        ) == st.io,
    }
}

/// The placeholder for the program root: a unit the host constructs.
pub struct Interpreter {}

/// Binding a name in the innermost frame of a scope is `st_set` on its
/// evaluation state.
pub proof fn lemma_st_set(pre: Scope, post: Scope, io: Io, name: Seq<char>, v: Vm)
    requires
        post.previous == pre.previous,
        vprs(post.variables@) == assoc_set(vprs(pre.variables@), name, v),
    ensures
        st_of(post, io) == st_set(st_of(pre, io), name, v),
{
    assert(sframes(post) =~= sframes(pre).update(
        0,
        assoc_set(sframes(pre)[0], name, v),
    ));
}

/// Reduces an AST node to a value inside `scope`, with side effects on
/// `io`, agreeing with the ghost interpreter [`eval`] under the given
/// step budget.
#[verifier::loop_isolation(false)]
#[verifier::rlimit(100)]
#[verifier::spinoff_prover]
pub fn walk_tree(node: &Node, scope: &mut Scope, io: &mut Io, fuel: u64) -> (r: Result<
    Value,
    Error,
>)
    requires
        io_wf(*old(io)),
    ensures
        io_wf(*final(io)),
        final(scope).filename@ == old(scope).filename@,
        agrees(
            r,
            eval(nm(*node), st_of(*old(scope), *old(io)), fuel as nat),
            *final(scope),
            *final(io),
        ),
    decreases fuel, 0int, 1int,
{
    if fuel == 0 {
        return Err(mk_err("Evaluation budget exhausted"));
    }
    let f = fuel - 1;
    match node {
        Node::Import(m) => walk_import(m, scope, io, fuel),
        Node::ImportFrom(m, names) => walk_import_from(m, names, scope, io, fuel),
        Node::BlockStatement(ss) => walk_block(ss, scope, io, f),
        Node::Assign(variable, value) => walk_assign(variable, value, scope, io, fuel),
        Node::AssignOp(op, variable, value) => walk_assign_op(*op, variable, value, scope, io, fuel),
        Node::Var(name) => Ok(scope.get(name)),
        Node::FieldAccess(variable, indices) => walk_field_access(variable, indices, scope, io, fuel),
        Node::String(text) => Ok(Value::String(create_string_in(text.as_str(), scope))),
        Node::Number(b) => Ok(Value::Number(*b)),
        Node::Bool(x) => Ok(Value::Boolean(*x)),
        Node::Null => Ok(Value::Null),
        Node::Array(elems) => walk_array(elems, scope, io, fuel),
        Node::Object(entries) => walk_object_lit(entries, scope, io, fuel),
        Node::Ternary(cond, t, e) => walk_ternary(cond, t, e, scope, io, fuel),
        Node::Logical(op, n1, n2) => walk_logical(*op, n1, n2, scope, io, fuel),
        Node::Binary(op, n1, n2) => walk_binary(*op, n1, n2, scope, io, fuel),
        Node::Unary(op, n1) => walk_unary(*op, n1, scope, io, fuel),
        Node::Fun(variable, params, body) => walk_fun_def(variable, params, body, scope, io, fuel),
        Node::Class(name, cons, methods) => walk_class(name, cons, methods, scope, io, fuel),
        Node::FunCall(callee, args) => walk_funcall(callee, args, scope, io, fuel),
        Node::IfElseStatement(cond, t, e) => walk_if_else(cond, t, e, scope, io, fuel),
        Node::WhileStatement(cond, body) => walk_while(cond, body, scope, io, fuel),
        Node::ForStatement(var, iterable, body) => walk_for_stmt(var, iterable, body, scope, io, fuel),
        Node::SwitchStatement(subject, cases) => walk_switch_stmt(subject, cases, scope, io, fuel),
        Node::Return(v) => walk_tree(v, scope, io, f),
        _ => Ok(Value::Null),
    }
}


/// An `import "m"` statement: binds the whole module object under its name.
#[verifier::spinoff_prover]
pub fn walk_import(m: &String, scope: &mut Scope, io: &mut Io, fuel: u64) -> (r: Result<
    Value,
    Error,
>)
    requires
        io_wf(*old(io)),
        fuel >= 1,
    ensures
        io_wf(*final(io)),
        final(scope).filename@ == old(scope).filename@,
        agrees(
            r,
            eval(Nm::Import(m@), st_of(*old(scope), *old(io)), fuel as nat),
            *final(scope),
            *final(io),
        ),
    decreases fuel, 0int, 0int,
{
    match import_module(m.as_str(), None, &io.args) {
        Ok(v) => {
            let ghost pre = *scope;
            let ghost gv = vm(v);
            scope.set(m.clone(), v);
            proof {
                lemma_st_set(pre, *scope, *io, m@, gv);
            }
            Ok(Value::Null)
        },
        Err(e) => Err(e),
    }
}

/// A `let` binding: evaluate the right side, bind the bare name.
#[verifier::spinoff_prover]
pub fn walk_assign(
    variable: &Node,
    value: &Node,
    scope: &mut Scope,
    io: &mut Io,
    fuel: u64,
) -> (r: Result<Value, Error>)
    requires
        io_wf(*old(io)),
        fuel >= 1,
    ensures
        io_wf(*final(io)),
        final(scope).filename@ == old(scope).filename@,
        agrees(
            r,
            eval(
                Nm::Assign(Box::new(nm(*variable)), Box::new(nm(*value))),
                st_of(*old(scope), *old(io)),
                fuel as nat,
            ),
            *final(scope),
            *final(io),
        ),
    decreases fuel, 0int, 0int,
{
    let f = fuel - 1;
    match variable {
        Node::Var(name) => {
            match walk_tree(value, scope, io, f) {
                Ok(v) => {
                    let ghost pre = *scope;
                    let ghost gv = vm(v);
                    let prev = scope.set(name.clone(), v);
                    proof {
                        lemma_st_set(pre, *scope, *io, name@, gv);
                    }
                    Ok(prev)
                },
                Err(e) => Err(e),
            }
        },
        _ => Err(mk_err("Unexpected assign")),
    }
}

/// An array literal: elements evaluated left to right.
#[verifier::spinoff_prover]
pub fn walk_array(elems: &Vec<Node>, scope: &mut Scope, io: &mut Io, fuel: u64) -> (r: Result<
    Value,
    Error,
>)
    requires
        io_wf(*old(io)),
        fuel >= 1,
    ensures
        io_wf(*final(io)),
        final(scope).filename@ == old(scope).filename@,
        agrees(
            r,
            eval(Nm::Arr(nms(elems@)), st_of(*old(scope), *old(io)), fuel as nat),
            *final(scope),
            *final(io),
        ),
    decreases fuel, 0int, 0int,
{
    match walk_nodes(elems, scope, io, fuel - 1) {
        Ok(vals) => Ok(Value::Array(vals)),
        Err(e) => Err(e),
    }
}

/// An object literal: entries evaluated in stored order, keys sorted.
#[verifier::spinoff_prover]
pub fn walk_object_lit(
    entries: &Vec<(String, Node)>,
    scope: &mut Scope,
    io: &mut Io,
    fuel: u64,
) -> (r: Result<Value, Error>)
    requires
        io_wf(*old(io)),
        fuel >= 1,
    ensures
        io_wf(*final(io)),
        final(scope).filename@ == old(scope).filename@,
        agrees(
            r,
            eval(Nm::Obj(nprs(entries@)), st_of(*old(scope), *old(io)), fuel as nat),
            *final(scope),
            *final(io),
        ),
    decreases fuel, 0int, 0int,
{
    match walk_obj(entries, scope, io, fuel - 1) {
        Ok(pairs) => Ok(Value::Object(pairs)),
        Err(e) => Err(e),
    }
}

/// A unary operator applied to its evaluated operand.
#[verifier::spinoff_prover]
pub fn walk_unary(op: UnaryOp, n1: &Node, scope: &mut Scope, io: &mut Io, fuel: u64) -> (r: Result<
    Value,
    Error,
>)
    requires
        io_wf(*old(io)),
        fuel >= 1,
    ensures
        io_wf(*final(io)),
        final(scope).filename@ == old(scope).filename@,
        agrees(
            r,
            eval(Nm::Unary(op, Box::new(nm(*n1))), st_of(*old(scope), *old(io)), fuel as nat),
            *final(scope),
            *final(io),
        ),
    decreases fuel, 0int, 0int,
{
    let v = match walk_tree(n1, scope, io, fuel - 1) {
        Ok(v) => v,
        Err(e) => {
            return Err(e);
        },
    };
    Ok(apply_unary(op, &v))
}

/// A function declaration: binds a function value under its name.
#[verifier::spinoff_prover]
pub fn walk_fun_def(
    variable: &Node,
    params: &FunctionArguments,
    body: &Node,
    scope: &mut Scope,
    io: &mut Io,
    fuel: u64,
) -> (r: Result<Value, Error>)
    requires
        io_wf(*old(io)),
        fuel >= 1,
    ensures
        io_wf(*final(io)),
        final(scope).filename@ == old(scope).filename@,
        agrees(
            r,
            eval(
                Nm::Fun(Box::new(nm(*variable)), pms(params.args@), Box::new(nm(*body))),
                st_of(*old(scope), *old(io)),
                fuel as nat,
            ),
            *final(scope),
            *final(io),
        ),
    decreases fuel, 0int, 0int,
{
    match variable {
        Node::Var(name) => {
            let fi = FuncImpl::FromNode(crate::ast::node_clone(body));
            proof {
                assert(fim(fi) == Fim::FromNode(nm(*body)));
            }
            let fun = Value::Function(name.clone(), crate::types::params_clone(params), fi);
            let ghost pre = *scope;
            let ghost gv = vm(fun);
            proof {
                assert(gv == Vm::Fun(name@, pms(params.args@), Fim::FromNode(nm(*body))));
            }
            let prev = scope.set(name.clone(), fun);
            proof {
                lemma_st_set(pre, *scope, *io, name@, gv);
            }
            Ok(prev)
        },
        _ => Ok(Value::Null),
    }
}

/// A `switch`: evaluate the subject once, then scan the arms.
#[verifier::spinoff_prover]
pub fn walk_switch_stmt(
    subject: &Node,
    cases: &Vec<SwitchCase>,
    scope: &mut Scope,
    io: &mut Io,
    fuel: u64,
) -> (r: Result<Value, Error>)
    requires
        io_wf(*old(io)),
        fuel >= 1,
    ensures
        io_wf(*final(io)),
        final(scope).filename@ == old(scope).filename@,
        agrees(
            r,
            eval(
                Nm::Switch(Box::new(nm(*subject)), cms(cases@)),
                st_of(*old(scope), *old(io)),
                fuel as nat,
            ),
            *final(scope),
            *final(io),
        ),
    decreases fuel, 0int, 0int,
{
    let f = fuel - 1;
    let subj = match walk_tree(subject, scope, io, f) {
        Ok(v) => v,
        Err(e) => {
            return Err(e);
        },
    };
    walk_switch(cases, &subj, scope, io, f)
}

/// A chained field read `a.b[0].c`.
#[verifier::spinoff_prover]
pub fn walk_field_access(
    variable: &Node,
    indices: &Vec<Node>,
    scope: &mut Scope,
    io: &mut Io,
    fuel: u64,
) -> (r: Result<Value, Error>)
    requires
        io_wf(*old(io)),
        fuel >= 1,
    ensures
        io_wf(*final(io)),
        final(scope).filename@ == old(scope).filename@,
        agrees(
            r,
            eval(
                Nm::FieldAccess(Box::new(nm(*variable)), nms(indices@)),
                st_of(*old(scope), *old(io)),
                fuel as nat,
            ),
            *final(scope),
            *final(io),
        ),
    decreases fuel, 0int, 0int,
{
    let f = fuel - 1;
    let base = match walk_tree(variable, scope, io, f) {
        Ok(v) => v,
        Err(e) => {
            return Err(e);
        },
    };
    let fields = walk_fields(indices, scope, io, f);
    let accessor = FieldAccessor::new(base, fields);
    accessor.get()
}

/// A ternary: evaluate the condition, then exactly one branch.
#[verifier::spinoff_prover]
pub fn walk_ternary(
    cond: &Node,
    t: &Node,
    e: &Node,
    scope: &mut Scope,
    io: &mut Io,
    fuel: u64,
) -> (r: Result<Value, Error>)
    requires
        io_wf(*old(io)),
        fuel >= 1,
    ensures
        io_wf(*final(io)),
        final(scope).filename@ == old(scope).filename@,
        agrees(
            r,
            eval(
                Nm::Ternary(Box::new(nm(*cond)), Box::new(nm(*t)), Box::new(nm(*e))),
                st_of(*old(scope), *old(io)),
                fuel as nat,
            ),
            *final(scope),
            *final(io),
        ),
    decreases fuel, 0int, 0int,
{
    let f = fuel - 1;
    let c = match walk_tree(cond, scope, io, f) {
        Ok(v) => v,
        Err(e2) => {
            return Err(e2);
        },
    };
    if c.as_bool() {
        walk_tree(t, scope, io, f)
    } else {
        walk_tree(e, scope, io, f)
    }
}

/// Binary arithmetic over two eagerly evaluated operands.
#[verifier::spinoff_prover]
pub fn walk_binary(
    op: BinaryOp,
    n1: &Node,
    n2: &Node,
    scope: &mut Scope,
    io: &mut Io,
    fuel: u64,
) -> (r: Result<Value, Error>)
    requires
        io_wf(*old(io)),
        fuel >= 1,
    ensures
        io_wf(*final(io)),
        final(scope).filename@ == old(scope).filename@,
        agrees(
            r,
            eval(
                Nm::Binary(op, Box::new(nm(*n1)), Box::new(nm(*n2))),
                st_of(*old(scope), *old(io)),
                fuel as nat,
            ),
            *final(scope),
            *final(io),
        ),
    decreases fuel, 0int, 0int,
{
    let f = fuel - 1;
    let v1 = match walk_tree(n1, scope, io, f) {
        Ok(v) => v,
        Err(e) => {
            return Err(e);
        },
    };
    let v2 = match walk_tree(n2, scope, io, f) {
        Ok(v) => v,
        Err(e) => {
            return Err(e);
        },
    };
    Ok(apply_binary(op, &v1, &v2))
}

/// An `if`/`else`: the chosen branch's value, null for a missing `else`.
#[verifier::spinoff_prover]
pub fn walk_if_else(
    cond: &Node,
    t: &Node,
    e: &Option<Box<Node>>,
    scope: &mut Scope,
    io: &mut Io,
    fuel: u64,
) -> (r: Result<Value, Error>)
    requires
        io_wf(*old(io)),
        fuel >= 1,
    ensures
        io_wf(*final(io)),
        final(scope).filename@ == old(scope).filename@,
        agrees(
            r,
            eval(
                Nm::IfElse(
                    Box::new(nm(*cond)),
                    Box::new(nm(*t)),
                    match e {
                        Some(b) => Some(Box::new(nm(**b))),
                        None => None,
                    },
                ),
                st_of(*old(scope), *old(io)),
                fuel as nat,
            ),
            *final(scope),
            *final(io),
        ),
    decreases fuel, 0int, 0int,
{
    let f = fuel - 1;
    let c = match walk_tree(cond, scope, io, f) {
        Ok(v) => v,
        Err(e2) => {
            return Err(e2);
        },
    };
    if c.as_bool() {
        walk_tree(t, scope, io, f)
    } else {
        match e {
            Some(en) => walk_tree(en, scope, io, f),
            None => Ok(Value::Null),
        }
    }
}

/// A `while` loop: re-evaluate the condition and run the body (whose
/// errors are discarded) until the condition turns false.
#[verifier::spinoff_prover]
pub fn walk_while(
    cond: &Node,
    body: &Node,
    scope: &mut Scope,
    io: &mut Io,
    fuel: u64,
) -> (r: Result<Value, Error>)
    requires
        io_wf(*old(io)),
    ensures
        io_wf(*final(io)),
        final(scope).filename@ == old(scope).filename@,
        agrees(
            r,
            eval(
                Nm::While(Box::new(nm(*cond)), Box::new(nm(*body))),
                st_of(*old(scope), *old(io)),
                fuel as nat,
            ),
            *final(scope),
            *final(io),
        ),
    decreases fuel, 0int, 0int,
{
    if fuel == 0 {
        return Err(mk_err("Evaluation budget exhausted"));
    }
    let f = fuel - 1;
    let c = match walk_tree(cond, scope, io, f) {
        Ok(v) => v,
        Err(e) => {
            return Err(e);
        },
    };
    if c.as_bool() {
        let ghost mid_scope = *scope;
        let ghost mid_io = *io;
        let discarded = walk_tree(body, scope, io, f);
        proof {
            assert(st_of(*scope, *io) == eval_state(nm(*body), st_of(mid_scope, mid_io), f as nat));
        }
        walk_while(cond, body, scope, io, f)
    } else {
        Ok(Value::Null)
    }
}

/// The `import ... from` form: merges the selected bindings into the
/// current scope.
#[verifier::loop_isolation(false)]
#[verifier::spinoff_prover]
pub fn walk_import_from(
    m: &String,
    names: &Vec<String>,
    scope: &mut Scope,
    io: &mut Io,
    fuel: u64,
) -> (r: Result<Value, Error>)
    requires
        io_wf(*old(io)),
        fuel >= 1,
    ensures
        io_wf(*final(io)),
        final(scope).filename@ == old(scope).filename@,
        agrees(
            r,
            eval(Nm::ImportFrom(m@, strs(names@)), st_of(*old(scope), *old(io)), fuel as nat),
            *final(scope),
            *final(io),
        ),
    decreases fuel, 0int, 0int,
{
    match import_module(m.as_str(), Some(names), &io.args) {
        Ok(v) => {
            match v {
                Value::Object(pairs) => {
                    let ghost gp = vprs(pairs@);
                    proof {
                        lemma_vprs(pairs@);
                        assert(gp.skip(0) =~= gp);
                    }
                    let mut i: usize = 0;
                    while i < pairs.len()
                        invariant
                            i <= pairs@.len(),
                            io_wf(*io),
                            scope.filename@ == old(scope).filename@,
                            iview(*io) == iview(*old(io)),
                            bind_pairs(st_of(*old(scope), *old(io)), gp) == bind_pairs(
                                st_of(*scope, *io),
                                gp.skip(i as int),
                            ),
                        decreases pairs@.len() - i,
                    {
                        proof {
                            assert(gp.skip(i as int)[0] == (
                                pairs@[i as int].0@,
                                vm(pairs@[i as int].1),
                            ));
                            assert(gp.skip(i as int).drop_first() =~= gp.skip(i + 1));
                        }
                        let entry_name = pairs[i].0.clone();
                        let entry_val = value_clone(&pairs[i].1);
                        let ghost pre = *scope;
                        let ghost gv = vm(entry_val);
                        let ghost gn = entry_name@;
                        scope.set(entry_name, entry_val);
                        proof {
                            lemma_st_set(pre, *scope, *io, gn, gv);
                        }
                        i = i + 1;
                    }
                    proof {
                        assert(gp.skip(pairs@.len() as int) =~= Seq::<(Seq<char>, Vm)>::empty());
                    }
                    Ok(Value::Null)
                },
                _ => Ok(Value::Null),
            }
        },
        Err(e) => Err(e),
    }
}

/// A compound assignment: combine the current and incoming values, then
/// re-bind a bare name, or write through a field chain and re-bind the
/// root variable.
#[verifier::loop_isolation(false)]
#[verifier::spinoff_prover]
pub fn walk_assign_op(
    op: AssignmentOp,
    variable: &Node,
    value: &Node,
    scope: &mut Scope,
    io: &mut Io,
    fuel: u64,
) -> (r: Result<Value, Error>)
    requires
        io_wf(*old(io)),
        fuel >= 1,
    ensures
        io_wf(*final(io)),
        final(scope).filename@ == old(scope).filename@,
        agrees(
            r,
            eval(
                Nm::AssignOp(op, Box::new(nm(*variable)), Box::new(nm(*value))),
                st_of(*old(scope), *old(io)),
                fuel as nat,
            ),
            *final(scope),
            *final(io),
        ),
    decreases fuel, 0int, 0int,
{
    let f = fuel - 1;
    let initial = match walk_tree(variable, scope, io, f) {
        Ok(v) => v,
        Err(e) => {
            return Err(e);
        },
    };
    let setv = match walk_tree(value, scope, io, f) {
        Ok(v) => v,
        Err(e) => {
            return Err(e);
        },
    };
    let combined = combine_assign(op, &initial, &setv);
    match variable {
        Node::Var(name) => {
            let ghost pre = *scope;
            let ghost gv = vm(combined);
            scope.set(name.clone(), combined);
            proof {
                lemma_st_set(pre, *scope, *io, name@, gv);
            }
            Ok(Value::Null)
        },
        Node::FieldAccess(var, indices) => {
            match &**var {
                Node::Var(name) => {
                    let base = match walk_tree(var, scope, io, f) {
                        Ok(v) => v,
                        Err(e) => {
                            return Err(e);
                        },
                    };
                    let fields = walk_fields(indices, scope, io, f);
                    let accessor = FieldAccessor::new(base, fields);
                    match accessor.set(combined) {
                        Ok(container) => {
                            let ghost pre = *scope;
                            let ghost gv = vm(container);
                            scope.set(name.clone(), container);
                            proof {
                                lemma_st_set(pre, *scope, *io, name@, gv);
                            }
                            Ok(Value::Null)
                        },
                        Err(e) => Err(e),
                    }
                },
                _ => Ok(Value::Null),
            }
        },
        _ => Ok(Value::Null),
    }
}

/// Eagerly evaluated logical and comparison operators.
#[verifier::spinoff_prover]
pub fn walk_logical(
    op: LogicalOp,
    n1: &Node,
    n2: &Node,
    scope: &mut Scope,
    io: &mut Io,
    fuel: u64,
) -> (r: Result<Value, Error>)
    requires
        io_wf(*old(io)),
        fuel >= 1,
    ensures
        io_wf(*final(io)),
        final(scope).filename@ == old(scope).filename@,
        agrees(
            r,
            eval(
                Nm::Logical(op, Box::new(nm(*n1)), Box::new(nm(*n2))),
                st_of(*old(scope), *old(io)),
                fuel as nat,
            ),
            *final(scope),
            *final(io),
        ),
    decreases fuel, 0int, 0int,
{
    let f = fuel - 1;
    let v1 = match walk_tree(n1, scope, io, f) {
        Ok(v) => v,
        Err(e) => {
            return Err(e);
        },
    };
    let v2 = match walk_tree(n2, scope, io, f) {
        Ok(v) => v,
        Err(e) => {
            return Err(e);
        },
    };
    let ord = v1.compare(&v2);
    let b1 = v1.as_bool();
    let b2 = v2.as_bool();
    match op {
        LogicalOp::AND => Ok(Value::Boolean(b1 && b2)),
        LogicalOp::OR => Ok(Value::Boolean(b1 || b2)),
        LogicalOp::EQ => Ok(Value::Boolean(matches!(ord, core::cmp::Ordering::Equal))),
        LogicalOp::NOTEQ => Ok(Value::Boolean(!matches!(ord, core::cmp::Ordering::Equal))),
        LogicalOp::GT => Ok(Value::Boolean(matches!(ord, core::cmp::Ordering::Greater))),
        LogicalOp::GTEQ => Ok(
            Value::Boolean(
                matches!(ord, core::cmp::Ordering::Greater) || matches!(
                    ord,
                    core::cmp::Ordering::Equal,
                ),
            ),
        ),
        LogicalOp::LT => Ok(Value::Boolean(matches!(ord, core::cmp::Ordering::Less))),
        LogicalOp::LTEQ => Ok(
            Value::Boolean(
                matches!(ord, core::cmp::Ordering::Less) || matches!(
                    ord,
                    core::cmp::Ordering::Equal,
                ),
            ),
        ),
    }
}

/// A class declaration: evaluates the prototype methods and the optional
/// constructor eagerly, then binds the class value.
#[verifier::spinoff_prover]
pub fn walk_class(
    name: &String,
    cons: &Option<Box<Node>>,
    methods: &Vec<(String, Node)>,
    scope: &mut Scope,
    io: &mut Io,
    fuel: u64,
) -> (r: Result<Value, Error>)
    requires
        io_wf(*old(io)),
        fuel >= 1,
    ensures
        io_wf(*final(io)),
        final(scope).filename@ == old(scope).filename@,
        agrees(
            r,
            eval(
                Nm::Class(
                    name@,
                    match cons {
                        Some(b) => Some(Box::new(nm(**b))),
                        None => None,
                    },
                    nprs(methods@),
                ),
                st_of(*old(scope), *old(io)),
                fuel as nat,
            ),
            *final(scope),
            *final(io),
        ),
    decreases fuel, 0int, 0int,
{
    let f = fuel - 1;
    let prot = match walk_obj(methods, scope, io, f) {
        Ok(pairs) => pairs,
        Err(e) => {
            return Err(e);
        },
    };
    match cons {
        Some(c) => {
            let cv = match walk_tree(c, scope, io, f) {
                Ok(v) => v,
                Err(e) => {
                    return Err(e);
                },
            };
            let class_val = Value::Class(name.clone(), Some(Box::new(cv)), prot);
            let ghost pre = *scope;
            let ghost gv = vm(class_val);
            let prev = scope.set(name.clone(), class_val);
            proof {
                lemma_st_set(pre, *scope, *io, name@, gv);
            }
            Ok(prev)
        },
        None => {
            let class_val = Value::Class(name.clone(), None, prot);
            let ghost pre = *scope;
            let ghost gv = vm(class_val);
            let prev = scope.set(name.clone(), class_val);
            proof {
                lemma_st_set(pre, *scope, *io, name@, gv);
            }
            Ok(prev)
        },
    }
}

/// A fresh scope for a call: chained onto a copy of the caller's live
/// scope (call-site scoping), holding the reduced argument bindings.
#[verifier::loop_isolation(false)]
#[verifier::spinoff_prover]
pub fn make_call_scope(scope: &Scope, binds: &Vec<(String, Value)>) -> (r: Scope)
    ensures
        sframes(r) == seq![bind_frame(vprs(binds@))] + sframes(*scope),
        r.filename@ == scope.filename@,
{
    let parent = scope_clone(scope);
    let mut fun_scope = Scope::from(Some(Box::new(parent)), scope.filename.clone());
    let ghost gb = vprs(binds@);
    proof {
        lemma_vprs(binds@);
        assert(gb.take(0) =~= Seq::<(Seq<char>, Vm)>::empty());
        assert(bind_frame(gb.take(0)) =~= Seq::<(Seq<char>, Vm)>::empty());
        assert(sframes(fun_scope) == seq![bind_frame(gb.take(0))] + sframes(*scope));
    }
    let mut i: usize = 0;
    while i < binds.len()
        invariant
            i <= binds@.len(),
            sframes(fun_scope) == seq![bind_frame(gb.take(i as int))] + sframes(*scope),
            fun_scope.filename@ == scope.filename@,
        decreases binds@.len() - i,
    {
        proof {
            assert(gb.take(i + 1).drop_last() =~= gb.take(i as int));
            assert(gb.take(i + 1).last() == (binds@[i as int].0@, vm(binds@[i as int].1)));
        }
        let bname = binds[i].0.clone();
        let bval = value_clone(&binds[i].1);
        let ghost pre_frames = sframes(fun_scope);
        let ghost gn = bname@;
        let ghost gv = vm(bval);
        fun_scope.set(bname, bval);
        proof {
            assert(sframes(fun_scope) =~= pre_frames.update(0, assoc_set(pre_frames[0], gn, gv)));
            assert(sframes(fun_scope) =~= seq![bind_frame(gb.take(i + 1))] + sframes(*scope));
        }
        i = i + 1;
    }
    proof {
        assert(gb.take(binds@.len() as int) =~= gb);
    }
    fun_scope
}

/// A call: evaluate the callee and the arguments in the caller's scope,
/// bind the arguments against the parameter list, and run the body in a
/// fresh scope chained onto the caller's (or the builtin directly).
#[verifier::loop_isolation(false)]
#[verifier::rlimit(100)]
#[verifier::spinoff_prover]
pub fn walk_funcall(
    callee: &Node,
    args: &Vec<Node>,
    scope: &mut Scope,
    io: &mut Io,
    fuel: u64,
) -> (r: Result<Value, Error>)
    requires
        io_wf(*old(io)),
        fuel >= 1,
    ensures
        io_wf(*final(io)),
        final(scope).filename@ == old(scope).filename@,
        agrees(
            r,
            eval(
                Nm::FunCall(Box::new(nm(*callee)), nms(args@)),
                st_of(*old(scope), *old(io)),
                fuel as nat,
            ),
            *final(scope),
            *final(io),
        ),
    decreases fuel, 0int, 0int,
{
    let f = fuel - 1;
    let ghost st0 = st_of(*old(scope), *old(io));
    let fv = match walk_tree(callee, scope, io, f) {
        Ok(v) => v,
        Err(e) => {
            return Err(e);
        },
    };
    proof {
        assert(eval(nm(*callee), st0, f as nat) == Ev::Succ(vm(fv), st_of(*scope, *io)));
    }
    let ghost st1 = st_of(*scope, *io);
    let vals = match walk_nodes(args, scope, io, f) {
        Ok(vs) => vs,
        Err(e) => {
            return Err(e);
        },
    };
    proof {
        assert(eval_nodes(nms(args@), st1, f as nat) == Ok::<(Seq<Vm>, St), (Seq<char>, St)>((
            vms(vals@),
            st_of(*scope, *io),
        )));
    }
    let ghost st2 = st_of(*scope, *io);
    let ghost gfv = vm(fv);
    match fv {
        Value::Function(_, fun_args, fun_impl) => {
            let ghost gfim = fim(fun_impl);
            proof {
                assert(gfv is Fun && gfv->Fun_1 == pms(fun_args.args@) && gfv->Fun_2 == gfim);
            }
            let binds = match fun_args.reduce(&vals) {
                Ok(bs) => bs,
                Err(e) => {
                    return Err(e);
                },
            };
            match fun_impl {
                FuncImpl::FromNode(body) => {
                    proof {
                        assert(gfim == Fim::FromNode(nm(body)));
                    }
                    let rr = run_fun_body(body, &binds, scope, io, f);
                    proof {
                        assert(agrees(
                            rr,
                            eval(
                                Nm::FunCall(Box::new(nm(*callee)), nms(args@)),
                                st0,
                                fuel as nat,
                            ),
                            *scope,
                            *io,
                        ));
                    }
                    rr
                },
                FuncImpl::Builtin(b) => Ok(apply_builtin(b, &binds, io)),
            }
        },
        _ => Err(not_a_function_err(callee)),
    }
}

/// The error for calling a value that is not a function, named after the
/// call site where it names one.
pub fn not_a_function_err(callee: &Node) -> (r: Error)
    ensures
        r.msg@ == not_a_function_msg(nm(*callee)),
{
    match callee {
        Node::Var(name) => {
            proof {
                assert(not_a_function_msg(nm(*callee)) == name@ + " is not a function"@);
            }
            let mut m = name.clone();
            m.append(" is not a function");
            let mut pos: Vec<usize> = Vec::new();
            pos.push(0);
            pos.push(0);
            Error { msg: m, pos }
        },
        Node::FieldAccess(var, _) => {
            proof {
                assert(nm(*callee) is FieldAccess);
            }
            match &**var {
                Node::Var(name) => {
                    proof {
                        assert(nm(**var) == Nm::Var(name@));
                        assert(not_a_function_msg(nm(*callee)) == name@ + " is not a function"@);
                    }
                    let mut m = name.clone();
                    m.append(" is not a function");
                    let mut pos: Vec<usize> = Vec::new();
                    pos.push(0);
                    pos.push(0);
                    Error { msg: m, pos }
                },
                _ => {
                    proof {
                        assert(not_a_function_msg(nm(*callee)) == "undefined is not a function"@);
                    }
                    mk_err("undefined is not a function")
                },
            }
        },
        _ => mk_err("undefined is not a function"),
    }
}

/// Runs a script function's body in a fresh scope holding the bound
/// arguments, chained onto the caller's scope; the caller's own frames are
/// untouched.
#[verifier::spinoff_prover]
pub fn run_fun_body(
    body: Node,
    binds: &Vec<(String, Value)>,
    scope: &mut Scope,
    io: &mut Io,
    f: u64,
) -> (r: Result<Value, Error>)
    requires
        io_wf(*old(io)),
    ensures
        io_wf(*final(io)),
        *final(scope) == *old(scope),
        ({
            let inner = St {
                frames: seq![bind_frame(vprs(binds@))] + sframes(*old(scope)),
                io: iview(*old(io)),
            };
            match eval(nm(body), inner, f as nat) {
                Ev::Succ(v, st3) => r is Ok && vm(r->Ok_0) == v && iview(*final(io)) == st3.io,
                Ev::Fail(m, st3) => r is Err && r->Err_0.msg@ == m && iview(*final(io)) == st3.io,
            }
        }),
    decreases f, 1int, 0int,
{
    let mut fun_scope = make_call_scope(scope, binds);
    walk_tree(&body, &mut fun_scope, io, f)
}

/// A `for` loop: iterate a string's characters or an array's elements.
#[verifier::loop_isolation(false)]
#[verifier::spinoff_prover]
pub fn walk_for_stmt(
    var: &String,
    iterable: &Node,
    body: &Node,
    scope: &mut Scope,
    io: &mut Io,
    fuel: u64,
) -> (r: Result<Value, Error>)
    requires
        io_wf(*old(io)),
        fuel >= 1,
    ensures
        io_wf(*final(io)),
        final(scope).filename@ == old(scope).filename@,
        agrees(
            r,
            eval(
                Nm::For(var@, Box::new(nm(*iterable)), Box::new(nm(*body))),
                st_of(*old(scope), *old(io)),
                fuel as nat,
            ),
            *final(scope),
            *final(io),
        ),
    decreases fuel, 0int, 0int,
{
    let f = fuel - 1;
    let items = match walk_tree(iterable, scope, io, f) {
        Ok(v) => v,
        Err(e) => {
            return Err(e);
        },
    };
    match items {
        Value::String(text) => {
            let n = text.as_str().unicode_len();
            let mut chars: Vec<Value> = Vec::new();
            let mut i: usize = 0;
            while i < n
                invariant
                    i <= n,
                    n == text@.len(),
                    chars@.len() == i,
                    forall|j: int| 0 <= j < i ==> vm(chars@[j]) == Vm::Str(seq![text@[j]]),
                decreases n - i,
            {
                let c = text.as_str().get_char(i);
                let mut one = String::new();
                crate::strutil::push_char(&mut one, c);
                proof {
                    assert(one@ =~= seq![text@[i as int]]);
                }
                chars.push(Value::String(one));
                i = i + 1;
            }
            proof {
                lemma_vms(chars@);
                assert(vms(chars@) =~= text@.map_values(|c: char| Vm::Str(seq![c])));
            }
            walk_for(var, &chars, body, scope, io, f);
            Ok(Value::Null)
        },
        Value::Array(vals) => {
            walk_for(var, &vals, body, scope, io, f);
            Ok(Value::Null)
        },
        _ => Err(mk_err("Value cannot be iterated")),
    }
}

/// Runs a statement list; see [`eval_block`].
#[verifier::loop_isolation(false)]
pub fn walk_block(ss: &Vec<Node>, scope: &mut Scope, io: &mut Io, fuel: u64) -> (r: Result<
    Value,
    Error,
>)
    requires
        io_wf(*old(io)),
    ensures
        io_wf(*final(io)),
        final(scope).filename@ == old(scope).filename@,
        agrees(
            r,
            eval_block(nms(ss@), st_of(*old(scope), *old(io)), fuel as nat),
            *final(scope),
            *final(io),
        ),
    decreases fuel, 1int, 0int,
{
    let ghost ns = nms(ss@);
    proof {
        lemma_nms(ss@);
        assert(ns.skip(0) =~= ns);
    }
    let mut i: usize = 0;
    while i < ss.len()
        invariant
            i <= ss@.len(),
            io_wf(*io),
            scope.filename@ == old(scope).filename@,
            eval_block(ns, st_of(*old(scope), *old(io)), fuel as nat) == eval_block(
                ns.skip(i as int),
                st_of(*scope, *io),
                fuel as nat,
            ),
        decreases ss@.len() - i,
    {
        proof {
            assert(ns.skip(i as int)[0] == nm(ss@[i as int]));
            assert(ns.skip(i as int).drop_first() =~= ns.skip(i + 1));
        }
        match &ss[i] {
            Node::Return(v) => {
                return walk_tree(v, scope, io, fuel);
            },
            stmt => {
                match walk_tree(stmt, scope, io, fuel) {
                    Ok(_) => {},
                    Err(e) => {
                        return Err(e);
                    },
                }
            },
        }
        i = i + 1;
    }
    proof {
        assert(ns.skip(ss@.len() as int) =~= Seq::<Nm>::empty());
    }
    Ok(Value::Null)
}

/// Evaluates nodes left to right, stopping at the first error; see
/// [`eval_nodes`].
#[verifier::loop_isolation(false)]
pub fn walk_nodes(ns: &Vec<Node>, scope: &mut Scope, io: &mut Io, fuel: u64) -> (r: Result<
    Vec<Value>,
    Error,
>)
    requires
        io_wf(*old(io)),
    ensures
        io_wf(*final(io)),
        final(scope).filename@ == old(scope).filename@,
        (match eval_nodes(nms(ns@), st_of(*old(scope), *old(io)), fuel as nat) {
            Ok((vals, st)) => r is Ok && vms(r->Ok_0@) == vals && sframes(*final(scope))
                == st.frames && iview(*final(io)) == st.io,
            Err((m, st)) => r is Err && r->Err_0.msg@ == m && sframes(*final(scope)) == st.frames
                && iview(*final(io)) == st.io,
        }),
    decreases fuel, 1int, 0int,
{
    let ghost gn = nms(ns@);
    proof {
        lemma_nms(ns@);
        assert(gn.skip(0) =~= gn);
    }
    let mut out: Vec<Value> = Vec::new();
    let mut i: usize = 0;
    while i < ns.len()
        invariant
            i <= ns@.len(),
            io_wf(*io),
            scope.filename@ == old(scope).filename@,
            eval_nodes(gn, st_of(*old(scope), *old(io)), fuel as nat) == (match eval_nodes(
                gn.skip(i as int),
                st_of(*scope, *io),
                fuel as nat,
            ) {
                Ok((rest, st)) => Ok::<(Seq<Vm>, St), (Seq<char>, St)>((vms(out@) + rest, st)),
                Err(e) => Err(e),
            }),
        decreases ns@.len() - i,
    {
        proof {
            assert(gn.skip(i as int)[0] == nm(ns@[i as int]));
            assert(gn.skip(i as int).drop_first() =~= gn.skip(i + 1));
        }
        let ghost pre = vms(out@);
        let ghost pre_vars = out@;
        match walk_tree(&ns[i], scope, io, fuel) {
            Ok(v) => {
                out.push(v);
                proof {
                    lemma_vms(out@);
                    lemma_vms(pre_vars);
                    assert(out@.drop_last() =~= pre_vars);
                    assert(vms(out@) =~= pre.push(vm(out@.last())));
                    assert(forall|rest: Seq<Vm>|
                        pre + (seq![vm(out@.last())] + rest) =~= vms(out@) + rest);
                }
            },
            Err(e) => {
                return Err(e);
            },
        }
        i = i + 1;
    }
    proof {
        assert(gn.skip(ns@.len() as int) =~= Seq::<Nm>::empty());
        assert(vms(out@) + Seq::<Vm>::empty() =~= vms(out@));
    }
    Ok(out)
}

/// Evaluates index nodes; a failing index becomes null; see
/// [`eval_fields`].
#[verifier::loop_isolation(false)]
pub fn walk_fields(ns: &Vec<Node>, scope: &mut Scope, io: &mut Io, fuel: u64) -> (r: Vec<Value>)
    requires
        io_wf(*old(io)),
    ensures
        io_wf(*final(io)),
        final(scope).filename@ == old(scope).filename@,
        ({
            let (vals, st) = eval_fields(nms(ns@), st_of(*old(scope), *old(io)), fuel as nat);
            vms(r@) == vals && sframes(*final(scope)) == st.frames && iview(*final(io)) == st.io
        }),
    decreases fuel, 1int, 0int,
{
    let ghost gn = nms(ns@);
    proof {
        lemma_nms(ns@);
        assert(gn.skip(0) =~= gn);
    }
    let mut out: Vec<Value> = Vec::new();
    let mut i: usize = 0;
    while i < ns.len()
        invariant
            i <= ns@.len(),
            io_wf(*io),
            scope.filename@ == old(scope).filename@,
            eval_fields(gn, st_of(*old(scope), *old(io)), fuel as nat) == ({
                let (rest, st) = eval_fields(gn.skip(i as int), st_of(*scope, *io), fuel as nat);
                (vms(out@) + rest, st)
            }),
        decreases ns@.len() - i,
    {
        proof {
            assert(gn.skip(i as int)[0] == nm(ns@[i as int]));
            assert(gn.skip(i as int).drop_first() =~= gn.skip(i + 1));
        }
        let ghost pre = vms(out@);
        let ghost pre_vars = out@;
        let v = match walk_tree(&ns[i], scope, io, fuel) {
            Ok(v) => v,
            Err(_) => Value::Null,
        };
        out.push(v);
        proof {
            lemma_vms(out@);
            lemma_vms(pre_vars);
            assert(out@.drop_last() =~= pre_vars);
            assert(vms(out@) =~= pre.push(vm(out@.last())));
            assert(forall|rest: Seq<Vm>|
                pre + (seq![vm(out@.last())] + rest) =~= vms(out@) + rest);
        }
        i = i + 1;
    }
    proof {
        assert(gn.skip(ns@.len() as int) =~= Seq::<Nm>::empty());
        assert(vms(out@) + Seq::<Vm>::empty() =~= vms(out@));
    }
    out
}

/// Evaluates an object literal's entries into a key-sorted pair list; see
/// [`eval_obj`].
#[verifier::loop_isolation(false)]
pub fn walk_obj(entries: &Vec<(String, Node)>, scope: &mut Scope, io: &mut Io, fuel: u64) -> (r:
    Result<Vec<(String, Value)>, Error>)
    requires
        io_wf(*old(io)),
    ensures
        io_wf(*final(io)),
        final(scope).filename@ == old(scope).filename@,
        (match eval_obj(
            nprs(entries@),
            Seq::empty(),
            st_of(*old(scope), *old(io)),
            fuel as nat,
        ) {
            Ok((pairs, st)) => r is Ok && vprs(r->Ok_0@) == pairs && sframes(*final(scope))
                == st.frames && iview(*final(io)) == st.io,
            Err((m, st)) => r is Err && r->Err_0.msg@ == m && sframes(*final(scope)) == st.frames
                && iview(*final(io)) == st.io,
        }),
    decreases fuel, 1int, 0int,
{
    let ghost gn = nprs(entries@);
    proof {
        lemma_nprs(entries@);
        assert(gn.skip(0) =~= gn);
    }
    let mut out: Vec<(String, Value)> = Vec::new();
    proof {
        assert(vprs(out@) =~= Seq::<(Seq<char>, Vm)>::empty());
    }
    let mut i: usize = 0;
    while i < entries.len()
        invariant
            i <= entries@.len(),
            io_wf(*io),
            scope.filename@ == old(scope).filename@,
            eval_obj(gn, Seq::empty(), st_of(*old(scope), *old(io)), fuel as nat) == eval_obj(
                gn.skip(i as int),
                vprs(out@),
                st_of(*scope, *io),
                fuel as nat,
            ),
        decreases entries@.len() - i,
    {
        proof {
            assert(gn.skip(i as int)[0] == (entries@[i as int].0@, nm(entries@[i as int].1)));
            assert(gn.skip(i as int).drop_first() =~= gn.skip(i + 1));
        }
        match walk_tree(&entries[i].1, scope, io, fuel) {
            Ok(v) => {
                out = crate::types::obj_insert(&out, &entries[i].0, v);
            },
            Err(e) => {
                return Err(e);
            },
        }
        i = i + 1;
    }
    proof {
        assert(gn.skip(entries@.len() as int) =~= Seq::<(Seq<char>, Nm)>::empty());
    }
    Ok(out)
}

/// Runs a loop body once per item, binding the loop variable each time;
/// see [`eval_for`].
#[verifier::loop_isolation(false)]
pub fn walk_for(
    var: &String,
    items: &Vec<Value>,
    body: &Node,
    scope: &mut Scope,
    io: &mut Io,
    fuel: u64,
)
    requires
        io_wf(*old(io)),
    ensures
        io_wf(*final(io)),
        final(scope).filename@ == old(scope).filename@,
        st_of(*final(scope), *final(io)) == eval_for(
            var@,
            vms(items@),
            nm(*body),
            st_of(*old(scope), *old(io)),
            fuel as nat,
        ),
    decreases fuel, 2int, 0int,
{
    let ghost gi = vms(items@);
    proof {
        lemma_vms(items@);
        assert(gi.skip(0) =~= gi);
    }
    let mut i: usize = 0;
    while i < items.len()
        invariant
            i <= items@.len(),
            io_wf(*io),
            scope.filename@ == old(scope).filename@,
            eval_for(var@, gi, nm(*body), st_of(*old(scope), *old(io)), fuel as nat) == eval_for(
                var@,
                gi.skip(i as int),
                nm(*body),
                st_of(*scope, *io),
                fuel as nat,
            ),
        decreases items@.len() - i,
    {
        proof {
            assert(gi.skip(i as int)[0] == vm(items@[i as int]));
            assert(gi.skip(i as int).drop_first() =~= gi.skip(i + 1));
        }
        let ghost pre = *scope;
        let item = value_clone(&items[i]);
        let ghost gv = vm(item);
        scope.set(var.clone(), item);
        proof {
            lemma_st_set(pre, *scope, *io, var@, gv);
        }
        let ghost mid_scope = *scope;
        let ghost mid_io = *io;
        let discarded = walk_tree(body, scope, io, fuel);
        proof {
            assert(st_of(*scope, *io) == eval_state(
                nm(*body),
                st_of(mid_scope, mid_io),
                fuel as nat,
            ));
        }
        i = i + 1;
    }
    proof {
        assert(gi.skip(items@.len() as int) =~= Seq::<Vm>::empty());
    }
}

/// Scans switch arms and runs the matched statement; see [`eval_switch`].
#[verifier::loop_isolation(false)]
pub fn walk_switch(
    cases: &Vec<SwitchCase>,
    subj: &Value,
    scope: &mut Scope,
    io: &mut Io,
    fuel: u64,
) -> (r: Result<Value, Error>)
    requires
        io_wf(*old(io)),
    ensures
        io_wf(*final(io)),
        final(scope).filename@ == old(scope).filename@,
        agrees(
            r,
            eval_switch(cms(cases@), vm(*subj), st_of(*old(scope), *old(io)), fuel as nat),
            *final(scope),
            *final(io),
        ),
    decreases fuel, 2int, 0int,
{
    let ghost gc = cms(cases@);
    proof {
        lemma_cms(cases@);
        assert(gc.skip(0) =~= gc);
    }
    let mut i: usize = 0;
    while i < cases.len()
        invariant
            i <= cases@.len(),
            io_wf(*io),
            scope.filename@ == old(scope).filename@,
            eval_switch(gc, vm(*subj), st_of(*old(scope), *old(io)), fuel as nat) == eval_switch(
                gc.skip(i as int),
                vm(*subj),
                st_of(*scope, *io),
                fuel as nat,
            ),
        decreases cases@.len() - i,
    {
        proof {
            assert(gc.skip(i as int)[0] == cm(cases@[i as int]));
            assert(gc.skip(i as int).drop_first() =~= gc.skip(i + 1));
        }
        match &cases[i] {
            SwitchCase::Default(stmt) => {
                return walk_tree(stmt, scope, io, fuel);
            },
            SwitchCase::Case(vn, _) => {
                let v = match walk_tree(vn, scope, io, fuel) {
                    Ok(v) => v,
                    Err(e) => {
                        return Err(e);
                    },
                };
                if value_eq(&v, subj) {
                    // Run the first statement at or after this arm.
                    let ghost run_from = gc.skip(i as int);
                    let mut j: usize = i;
                    while j < cases.len()
                        invariant
                            i <= j <= cases@.len(),
                            io_wf(*io),
                            scope.filename@ == old(scope).filename@,
                            switch_run(run_from, st_of(*scope, *io), fuel as nat) == switch_run(
                                gc.skip(j as int),
                                st_of(*scope, *io),
                                fuel as nat,
                            ),
                            eval_switch(gc, vm(*subj), st_of(*old(scope), *old(io)), fuel as nat)
                                == switch_run(run_from, st_of(*scope, *io), fuel as nat),
                        decreases cases@.len() - j,
                    {
                        proof {
                            assert(gc.skip(j as int)[0] == cm(cases@[j as int]));
                            assert(gc.skip(j as int).drop_first() =~= gc.skip(j + 1));
                        }
                        match &cases[j] {
                            SwitchCase::Default(stmt) => {
                                return walk_tree(stmt, scope, io, fuel);
                            },
                            SwitchCase::Case(_, Some(stmt)) => {
                                return walk_tree(stmt, scope, io, fuel);
                            },
                            SwitchCase::Case(_, None) => {},
                        }
                        j = j + 1;
                    }
                    proof {
                        assert(gc.skip(cases@.len() as int) =~= Seq::<Cm>::empty());
                    }
                    return Err(mk_err("No case matched"));
                }
            },
        }
        i = i + 1;
    }
    proof {
        assert(gc.skip(cases@.len() as int) =~= Seq::<Cm>::empty());
    }
    Err(mk_err("No case matched"))
}

/// Applies a binary operator to two evaluated operands; see
/// [`binary_spec`].
pub fn apply_binary(op: BinaryOp, v1: &Value, v2: &Value) -> (r: Value)
    ensures
        vm(r) == binary_spec(op, vm(*v1), vm(*v2)),
{
    match op {
        BinaryOp::PLUS => match v1 {
            Value::String(s) => {
                let mut out = s.clone();
                let piece = v2.as_string();
                out.append(piece.as_str());
                Value::String(out)
            },
            Value::Number(b) => Value::Number(crate::num::num_add(*b, v2.as_number())),
            Value::Boolean(_) => Value::Number(crate::num::num_add(v1.as_number(), v2.as_number())),
            Value::Null => value_clone(v2),
            _ => {
                let mut out = v1.as_string();
                let piece = v2.as_string();
                out.append(piece.as_str());
                Value::String(out)
            },
        },
        BinaryOp::MINUS => match v1 {
            Value::Number(b) => Value::Number(crate::num::num_sub(*b, v2.as_number())),
            Value::Boolean(_) => Value::Number(crate::num::num_sub(v1.as_number(), v2.as_number())),
            Value::Null => Value::Number(crate::num::num_neg(v2.as_number())),
            _ => Value::Number(NAN_BITS),
        },
        BinaryOp::MULTIPLY => match v1 {
            Value::String(s) => {
                let count = repeat_count_of(v2.as_number());
                Value::String(crate::strutil::str_repeat(s.as_str(), count))
            },
            Value::Number(b) => Value::Number(crate::num::num_mul(*b, v2.as_number())),
            Value::Boolean(_) => Value::Number(crate::num::num_mul(v1.as_number(), v2.as_number())),
            Value::Null => Value::Number(ZERO_BITS),
            _ => Value::Number(NAN_BITS),
        },
        BinaryOp::DIVIDE => match v1 {
            Value::String(_) => Value::Number(crate::num::num_div(v1.as_number(), v2.as_number())),
            Value::Number(b) => Value::Number(crate::num::num_div(*b, v2.as_number())),
            Value::Boolean(_) => Value::Number(crate::num::num_div(v1.as_number(), v2.as_number())),
            Value::Null => Value::Number(ZERO_BITS),
            _ => Value::Number(NAN_BITS),
        },
        BinaryOp::REMAINDER => match v1 {
            Value::String(_) => Value::Number(crate::num::num_rem(v1.as_number(), v2.as_number())),
            Value::Number(b) => Value::Number(crate::num::num_rem(*b, v2.as_number())),
            Value::Boolean(_) => Value::Number(crate::num::num_rem(v1.as_number(), v2.as_number())),
            Value::Null => Value::Number(ZERO_BITS),
            _ => Value::Number(NAN_BITS),
        },
        BinaryOp::EXPONENT => match v1 {
            Value::String(_) => Value::Number(num_pow(v1.as_number(), v2.as_number())),
            Value::Number(b) => Value::Number(num_pow(*b, v2.as_number())),
            Value::Boolean(_) => Value::Number(num_pow(v1.as_number(), v2.as_number())),
            Value::Null => Value::Number(ZERO_BITS),
            _ => Value::Number(NAN_BITS),
        },
    }
}

/// The saturated repetition count a number's bits stand for; see
/// [`repeat_count`].
pub fn repeat_count_of(b: u64) -> (r: usize)
    ensures
        r as nat == repeat_count(b),
{
    let t = crate::num::num_trunc(b);
    if t < 0 {
        0
    } else if t > (usize::MAX as i128) {
        usize::MAX
    } else {
        t as usize
    }
}

/// Applies a unary operator to an evaluated operand; see [`unary_spec`].
pub fn apply_unary(op: UnaryOp, v: &Value) -> (r: Value)
    ensures
        vm(r) == unary_spec(op, vm(*v)),
{
    match op {
        UnaryOp::MINUS => match v {
            Value::String(_) => Value::Number(crate::num::num_neg(v.as_number())),
            Value::Number(b) => Value::Number(crate::num::num_neg(*b)),
            Value::Boolean(_) => Value::Number(crate::num::num_neg(v.as_number())),
            Value::Null => Value::Number(crate::num::SIGN_BIT),
            _ => Value::Number(NAN_BITS),
        },
        UnaryOp::NOT => Value::Boolean(!v.as_bool()),
    }
}

} // verus!
