//! The module registry and the built-in function values.
//!
//! Built-ins are `Value::Function` entries whose implementation is a
//! [`Builtin`] tag the evaluator interprets: coercions are pure, `write`
//! appends to the output transcript, `read` takes the next queued input
//! line, `random` the next queued entropy word. The registry offers an
//! `io` and a `math` module.
use vstd::prelude::*;

use crate::num::PI_BITS;
use crate::strutil::str_eq;
use crate::types::{
    lemma_pms, lemma_vprs, pms, vm, vprs, Builtin, FuncImpl, FunctionArgument, FunctionArguments,
    Pm, Fim, Value, Vm,
};
use crate::Error;

verus! {

broadcast use {vstd::std_specs::vec::group_vec_axioms, vstd::seq::group_seq_axioms};

/// A function value with one required parameter `any` and a builtin body.
pub open spec fn coerce_fn(name: Seq<char>, b: Builtin) -> Vm {
    Vm::Fun(name, seq![Pm::Required("any"@)], Fim::Builtin(b))
}

/// The `write`/`log` builtin: variadic, prints space-joined renderings.
pub open spec fn write_fn() -> Vm {
    Vm::Fun("write"@, seq![Pm::Spread("vals"@)], Fim::Builtin(Builtin::Write))
}

/// The `read` builtin: variadic prompt, returns the next input line.
pub open spec fn read_fn() -> Vm {
    Vm::Fun("read"@, seq![Pm::Spread("vals"@)], Fim::Builtin(Builtin::Read))
}

/// The `num` coercion builtin.
pub open spec fn num_fn() -> Vm {
    coerce_fn("num"@, Builtin::Num)
}

/// The `bool` coercion builtin.
pub open spec fn bool_fn() -> Vm {
    coerce_fn("bool"@, Builtin::Bool)
}

/// The `str` coercion builtin.
pub open spec fn str_fn() -> Vm {
    coerce_fn("str"@, Builtin::Str)
}

/// A math builtin over one required parameter `num`.
pub open spec fn math1_fn(name: Seq<char>, b: Builtin) -> Vm {
    Vm::Fun(name, seq![Pm::Required("num"@)], Fim::Builtin(b))
}

/// The `pow` builtin.
pub open spec fn pow_fn() -> Vm {
    Vm::Fun("pow"@, seq![Pm::Required("num"@), Pm::Required("pow"@)], Fim::Builtin(Builtin::Pow))
}

/// The `random` builtin.
pub open spec fn random_fn() -> Vm {
    Vm::Fun("random"@, seq![Pm::Spread(""@)], Fim::Builtin(Builtin::Random))
}

/// The `max` builtin.
pub open spec fn max_fn() -> Vm {
    Vm::Fun("max"@, seq![Pm::Required("num1"@), Pm::Required("num2"@)], Fim::Builtin(Builtin::Max))
}

/// The `min` builtin.
pub open spec fn min_fn() -> Vm {
    Vm::Fun("min"@, seq![Pm::Required("num1"@), Pm::Required("num2"@)], Fim::Builtin(Builtin::Min))
}

/// Builds the function value for a builtin with one `any` parameter.
fn make_coerce(name: &str, b: Builtin) -> (r: Value)
    ensures
        vm(r) == coerce_fn(name@, b),
{
    let mut args: Vec<FunctionArgument> = Vec::new();
    args.push(FunctionArgument::Required("any".to_owned()));
    proof {
        lemma_pms(args@);
        assert(pms(args@) =~= seq![Pm::Required("any"@)]);
        assert(crate::types::fim(FuncImpl::Builtin(b)) == Fim::Builtin(b));
    }
    Value::Function(name.to_owned(), FunctionArguments::new(args), FuncImpl::Builtin(b))
}

/// The `log`/`write` function value.
pub fn get_write() -> (r: Value)
    ensures
        vm(r) == write_fn(),
{
    let mut args: Vec<FunctionArgument> = Vec::new();
    args.push(FunctionArgument::Spread("vals".to_owned()));
    proof {
        lemma_pms(args@);
        assert(pms(args@) =~= seq![Pm::Spread("vals"@)]);
        assert(crate::types::fim(FuncImpl::Builtin(Builtin::Write)) == Fim::Builtin(
            Builtin::Write,
        ));
    }
    Value::Function("write".to_owned(), FunctionArguments::new(args), FuncImpl::Builtin(
        Builtin::Write,
    ))
}

/// The `read` function value.
pub fn get_read() -> (r: Value)
    ensures
        vm(r) == read_fn(),
{
    let mut args: Vec<FunctionArgument> = Vec::new();
    args.push(FunctionArgument::Spread("vals".to_owned()));
    proof {
        lemma_pms(args@);
        assert(pms(args@) =~= seq![Pm::Spread("vals"@)]);
        assert(crate::types::fim(FuncImpl::Builtin(Builtin::Read)) == Fim::Builtin(Builtin::Read));
    }
    Value::Function("read".to_owned(), FunctionArguments::new(args), FuncImpl::Builtin(
        Builtin::Read,
    ))
}

/// The `num` coercion function value.
pub fn get_num() -> (r: Value)
    ensures
        vm(r) == num_fn(),
{
    make_coerce("num", Builtin::Num)
}

/// The `bool` coercion function value.
pub fn get_bool() -> (r: Value)
    ensures
        vm(r) == bool_fn(),
{
    make_coerce("bool", Builtin::Bool)
}

/// The `str` coercion function value.
pub fn get_str() -> (r: Value)
    ensures
        vm(r) == str_fn(),
{
    make_coerce("str", Builtin::Str)
}

/// Builds a math function value with one `num` parameter.
fn make_math1(name: &str, b: Builtin) -> (r: Value)
    ensures
        vm(r) == math1_fn(name@, b),
{
    let mut args: Vec<FunctionArgument> = Vec::new();
    args.push(FunctionArgument::Required("num".to_owned()));
    proof {
        lemma_pms(args@);
        assert(pms(args@) =~= seq![Pm::Required("num"@)]);
        assert(crate::types::fim(FuncImpl::Builtin(b)) == Fim::Builtin(b));
    }
    Value::Function(name.to_owned(), FunctionArguments::new(args), FuncImpl::Builtin(b))
}

/// The `pow` function value.
pub fn get_pow() -> (r: Value)
    ensures
        vm(r) == pow_fn(),
{
    let mut args: Vec<FunctionArgument> = Vec::new();
    args.push(FunctionArgument::Required("num".to_owned()));
    args.push(FunctionArgument::Required("pow".to_owned()));
    proof {
        lemma_pms(args@);
        assert(pms(args@) =~= seq![Pm::Required("num"@), Pm::Required("pow"@)]);
        assert(crate::types::fim(FuncImpl::Builtin(Builtin::Pow)) == Fim::Builtin(Builtin::Pow));
    }
    Value::Function("pow".to_owned(), FunctionArguments::new(args), FuncImpl::Builtin(
        Builtin::Pow,
    ))
}

/// The `abs` function value.
pub fn get_abs() -> (r: Value)
    ensures
        vm(r) == math1_fn("abs"@, Builtin::Abs),
{
    make_math1("abs", Builtin::Abs)
}

/// The `ceil` function value.
pub fn get_ceil() -> (r: Value)
    ensures
        vm(r) == math1_fn("ceil"@, Builtin::Ceil),
{
    make_math1("ceil", Builtin::Ceil)
}

/// The `floor` function value.
pub fn get_floor() -> (r: Value)
    ensures
        vm(r) == math1_fn("floor"@, Builtin::Floor),
{
    make_math1("floor", Builtin::Floor)
}

/// The `round` function value.
pub fn get_round() -> (r: Value)
    ensures
        vm(r) == math1_fn("round"@, Builtin::Round),
{
    make_math1("round", Builtin::Round)
}

/// The `random` function value.
pub fn get_random() -> (r: Value)
    ensures
        vm(r) == random_fn(),
{
    let mut args: Vec<FunctionArgument> = Vec::new();
    args.push(FunctionArgument::Spread("".to_owned()));
    proof {
        lemma_pms(args@);
        assert(pms(args@) =~= seq![Pm::Spread(""@)]);
        assert(crate::types::fim(FuncImpl::Builtin(Builtin::Random)) == Fim::Builtin(
            Builtin::Random,
        ));
    }
    Value::Function("random".to_owned(), FunctionArguments::new(args), FuncImpl::Builtin(
        Builtin::Random,
    ))
}

/// Builds a math function value over `num1`, `num2`.
fn make_math2(name: &str, b: Builtin) -> (r: Value)
    ensures
        vm(r) == Vm::Fun(
            name@,
            seq![Pm::Required("num1"@), Pm::Required("num2"@)],
            Fim::Builtin(b),
        ),
{
    let mut args: Vec<FunctionArgument> = Vec::new();
    args.push(FunctionArgument::Required("num1".to_owned()));
    args.push(FunctionArgument::Required("num2".to_owned()));
    proof {
        lemma_pms(args@);
        assert(pms(args@) =~= seq![Pm::Required("num1"@), Pm::Required("num2"@)]);
        assert(crate::types::fim(FuncImpl::Builtin(b)) == Fim::Builtin(b));
    }
    Value::Function(name.to_owned(), FunctionArguments::new(args), FuncImpl::Builtin(b))
}

/// The `max` function value.
pub fn get_max() -> (r: Value)
    ensures
        vm(r) == max_fn(),
{
    make_math2("max", Builtin::Max)
}

/// The `min` function value.
pub fn get_min() -> (r: Value)
    ensures
        vm(r) == min_fn(),
{
    make_math2("min", Builtin::Min)
}

/// The `io` module's bindings, in ascending key order. The process
/// arguments are handed in by the host.
pub open spec fn io_module_vm(args: Seq<Seq<char>>) -> Seq<(Seq<char>, Vm)> {
    seq![
        ("argv"@, Vm::Arr(args.map_values(|a: Seq<char>| Vm::Str(a)))),
        ("read"@, read_fn()),
        ("stdin"@, Vm::Obj(seq![("read"@, read_fn())])),
        ("stdout"@, Vm::Obj(seq![("write"@, write_fn())])),
    ]
}

/// The `math` module's bindings, in ascending key order.
pub open spec fn math_module_vm() -> Seq<(Seq<char>, Vm)> {
    seq![
        ("PI"@, Vm::Num(PI_BITS)),
        ("abs"@, math1_fn("abs"@, Builtin::Abs)),
        ("ceil"@, math1_fn("ceil"@, Builtin::Ceil)),
        ("floor"@, math1_fn("floor"@, Builtin::Floor)),
        ("max"@, max_fn()),
        ("min"@, min_fn()),
        ("pow"@, pow_fn()),
        ("random"@, random_fn()),
        ("round"@, math1_fn("round"@, Builtin::Round)),
    ]
}

/// The console module.
pub struct IOModule {}

/// The mathematics module (constants, rounding, min/max, powers).
pub struct MathModule {}

impl IOModule {
    /// The `io` bindings; `args` are the host's process arguments.
    #[verifier::loop_isolation(false)]
    pub fn get(args: &Vec<String>) -> (r: Vec<(String, Value)>)
        ensures
            vprs(r@) == io_module_vm(crate::ast::strs(args@)),
    {
        let mut argv: Vec<Value> = Vec::new();
        let mut i: usize = 0;
        while i < args.len()
            invariant
                i <= args@.len(),
                argv@.len() == i,
                forall|j: int| 0 <= j < i ==> vm(argv@[j]) == Vm::Str(args@[j]@),
            decreases args@.len() - i,
        {
            argv.push(Value::String(args[i].clone()));
            i = i + 1;
        }
        proof {
            crate::types::lemma_vms(argv@);
            crate::ast::lemma_strs(args@);
            assert(crate::types::vms(argv@) =~= crate::ast::strs(args@).map_values(
                |a: Seq<char>| Vm::Str(a),
            ));
        }
        let mut stdin_obj: Vec<(String, Value)> = Vec::new();
        stdin_obj.push(("read".to_owned(), get_read()));
        proof {
            lemma_vprs(stdin_obj@);
            assert(vprs(stdin_obj@) =~= seq![("read"@, read_fn())]);
        }
        let mut stdout_obj: Vec<(String, Value)> = Vec::new();
        stdout_obj.push(("write".to_owned(), get_write()));
        proof {
            lemma_vprs(stdout_obj@);
            assert(vprs(stdout_obj@) =~= seq![("write"@, write_fn())]);
        }
        let mut out: Vec<(String, Value)> = Vec::new();
        out.push(("argv".to_owned(), Value::Array(argv)));
        out.push(("read".to_owned(), get_read()));
        out.push(("stdin".to_owned(), Value::Object(stdin_obj)));
        out.push(("stdout".to_owned(), Value::Object(stdout_obj)));
        proof {
            lemma_vprs(out@);
            assert(vprs(out@) =~= io_module_vm(crate::ast::strs(args@)));
        }
        out
    }
}

impl MathModule {
    /// The `math` bindings.
    pub fn get() -> (r: Vec<(String, Value)>)
        ensures
            vprs(r@) == math_module_vm(),
    {
        let mut out: Vec<(String, Value)> = Vec::new();
        out.push(("PI".to_owned(), Value::Number(PI_BITS)));
        out.push(("abs".to_owned(), get_abs()));
        out.push(("ceil".to_owned(), get_ceil()));
        out.push(("floor".to_owned(), get_floor()));
        out.push(("max".to_owned(), get_max()));
        out.push(("min".to_owned(), get_min()));
        out.push(("pow".to_owned(), get_pow()));
        out.push(("random".to_owned(), get_random()));
        out.push(("round".to_owned(), get_round()));
        proof {
            lemma_vprs(out@);
            assert(vprs(out@) =~= math_module_vm());
        }
        out
    }
}

/// The pairs of `o` whose key is one of `names`, in their stored order.
pub open spec fn filter_pairs(o: Seq<(Seq<char>, Vm)>, names: Seq<Seq<char>>) -> Seq<
    (Seq<char>, Vm),
>
    decreases o,
{
    if o.len() == 0 {
        Seq::empty()
    } else if names.contains(o[0].0) {
        seq![o[0]] + filter_pairs(o.drop_first(), names)
    } else {
        filter_pairs(o.drop_first(), names)
    }
}

/// What importing `module` gives: the module's bindings as a namespace
/// object, filtered to `objects` when a selection is given; unknown module
/// names are rejected.
pub open spec fn import_spec(
    module: Seq<char>,
    objects: Option<Seq<Seq<char>>>,
    args: Seq<Seq<char>>,
) -> Result<Vm, Seq<char>> {
    let lib = if module == "io"@ {
        Ok(io_module_vm(args))
    } else if module == "math"@ {
        Ok(math_module_vm())
    } else {
        Err("Unknown module"@)
    };
    match lib {
        Ok(pairs) => match objects {
            Some(names) => Ok(Vm::Obj(filter_pairs(pairs, names))),
            None => Ok(Vm::Obj(pairs)),
        },
        Err(m) => Err(m),
    }
}

/// Whether one of the strings reads as `k`.
#[verifier::loop_isolation(false)]
fn names_contain(names: &Vec<String>, k: &String) -> (r: bool)
    ensures
        r == crate::ast::strs(names@).contains(k@),
{
    proof {
        crate::ast::lemma_strs(names@);
    }
    let mut i: usize = 0;
    while i < names.len()
        invariant
            i <= names@.len(),
            forall|j: int| 0 <= j < i ==> names@[j]@ != k@,
        decreases names@.len() - i,
    {
        if str_eq(names[i].as_str(), k.as_str()) {
            proof {
                assert(crate::ast::strs(names@)[i as int] == k@);
            }
            return true;
        }
        i = i + 1;
    }
    proof {
        if crate::ast::strs(names@).contains(k@) {
            let j = choose|j: int|
                0 <= j < crate::ast::strs(names@).len() && crate::ast::strs(names@)[j] == k@;
            assert(names@[j]@ == k@);
        }
    }
    false
}

/// Resolves a module name to its namespace object, filtered to the
/// selected bindings when a selection is given.
#[verifier::loop_isolation(false)]
pub fn import_module(
    module: &str,
    objects: Option<&Vec<String>>,
    args: &Vec<String>,
) -> (r: Result<Value, Error>)
    ensures
        crate::types::res_is(
            r,
            import_spec(
                module@,
                match objects {
                    Some(names) => Some(crate::ast::strs(names@)),
                    None => None,
                },
                crate::ast::strs(args@),
            ),
        ),
{
    let lib: Vec<(String, Value)> = if str_eq(module, "io") {
        IOModule::get(args)
    } else if str_eq(module, "math") {
        MathModule::get()
    } else {
        return Err(crate::types::mk_err("Unknown module"));
    };
    match objects {
        Some(names) => {
            let ghost vo = vprs(lib@);
            let ghost vnames = crate::ast::strs(names@);
            proof {
                lemma_vprs(lib@);
                assert(vo.skip(0) =~= vo);
            }
            let mut out: Vec<(String, Value)> = Vec::new();
            let mut i: usize = 0;
            while i < lib.len()
                invariant
                    i <= lib@.len(),
                    filter_pairs(vo, vnames) == vprs(out@) + filter_pairs(
                        vo.skip(i as int),
                        vnames,
                    ),
                decreases lib@.len() - i,
            {
                proof {
                    assert(vo.skip(i as int)[0] == (lib@[i as int].0@, vm(lib@[i as int].1)));
                    assert(vo.skip(i as int).drop_first() =~= vo.skip(i + 1));
                }
                let ghost pre = vprs(out@);
                let ghost pre_vars = out@;
                if names_contain(names, &lib[i].0) {
                    let entry = (lib[i].0.clone(), crate::types::value_clone(&lib[i].1));
                    out.push(entry);
                    proof {
                        assert(out@.drop_last() =~= pre_vars);
                        assert(vprs(out@) == pre.push((out@.last().0@, vm(out@.last().1))));
                        assert(vprs(out@) =~= pre.push(vo.skip(i as int)[0]));
                        assert(pre + (seq![vo.skip(i as int)[0]] + filter_pairs(
                            vo.skip(i + 1),
                            vnames,
                        )) =~= vprs(out@) + filter_pairs(vo.skip(i + 1), vnames));
                    }
                } else {
                    proof {
                        lemma_vprs(out@);
                    }
                }
                i = i + 1;
            }
            proof {
                assert(vo.skip(lib@.len() as int) =~= Seq::<(Seq<char>, Vm)>::empty());
                assert(vprs(out@) + filter_pairs(vo.skip(lib@.len() as int), vnames) =~= vprs(
                    out@,
                ));
            }
            Ok(Value::Object(out))
        },
        None => Ok(Value::Object(lib)),
    }
}

} // verus!
