use coco::ast::{AssignmentOp, BinaryOp, Node, SwitchCase, UnaryOp};
use coco::interpreter::{walk_tree, Io};
use coco::scope::Scope;
use coco::types::{
    FuncImpl, FunctionArgument, FunctionArguments, Value,
};

fn fresh_io() -> Io {
    Io { args: vec![], input: vec![], in_pos: 0, output: vec![], entropy: vec![], ent_pos: 0 }
}

fn run(node: Node) -> (Result<Value, coco::Error>, Scope, Io) {
    let mut scope = Scope::new("test".to_owned());
    let mut io = fresh_io();
    let r = walk_tree(&node, &mut scope, &mut io, 10_000);
    (r, scope, io)
}

fn num(v: f64) -> Value {
    Value::Number(v.to_bits())
}

fn num_node(v: f64) -> Node {
    Node::Number(v.to_bits())
}

fn bits_of(v: &Value) -> u64 {
    match v {
        Value::Number(b) => *b,
        other => panic!("expected a number, got {:?}", other),
    }
}

fn text_of(v: &Value) -> String {
    match v {
        Value::String(s) => s.clone(),
        other => panic!("expected a string, got {:?}", other),
    }
}

fn is_nan_bits(b: u64) -> bool {
    (b & 0x7fff_ffff_ffff_ffff) > 0x7ff0_0000_0000_0000
}

#[test]
fn rendering_then_parsing_is_identity() {
    for v in [0.0f64, 1.5, -2.25, 6.02e23, -1.0e-9] {
        assert!(coco::laws::render_reparses(v.to_bits()));
    }
}

#[test]
fn number_round_trips_through_text() {
    for v in [1.5f64, 3.0, -0.25, 1234.0, 0.1] {
        let rendered = num(v).as_string();
        let back = Value::String(rendered).as_number();
        assert_eq!(back, v.to_bits());
    }
}

#[test]
fn array_write_then_read() {
    let arr = Value::Array(vec![num(1.0), num(2.0), num(3.0)]);
    let written = arr.set_field(&num(1.0), Value::String("x".to_owned())).unwrap();
    let read = written.get_field(&num(1.0)).unwrap();
    assert_eq!(text_of(&read), "x");
}

#[test]
fn object_write_then_read() {
    let obj = Value::Object(vec![]);
    let written = obj.set_field(&Value::String("k".to_owned()), num(7.0)).unwrap();
    let read = written.get_field(&Value::String("k".to_owned())).unwrap();
    assert_eq!(bits_of(&read), 7.0f64.to_bits());
}

#[test]
fn negative_index_counts_from_end() {
    let arr = Value::Array(vec![num(10.0), num(20.0), num(30.0)]);
    let last = arr.get_field(&num(-1.0)).unwrap();
    let explicit = arr.get_field(&num(2.0)).unwrap();
    assert_eq!(bits_of(&last), bits_of(&explicit));
    let text = Value::String("abc".to_owned());
    let c = text.get_field(&num(-1.0)).unwrap();
    assert_eq!(text_of(&c), "c");
}

#[test]
fn null_plus_is_identity_and_minus_negates() {
    for v in [5.0f64, -2.5, 0.0] {
        let (sum, _, _) = run(Node::Binary(
            BinaryOp::PLUS,
            Box::new(Node::Null),
            Box::new(num_node(v)),
        ));
        assert_eq!(bits_of(&sum.unwrap()), v.to_bits());
        let (diff, _, _) = run(Node::Binary(
            BinaryOp::MINUS,
            Box::new(Node::Null),
            Box::new(num_node(v)),
        ));
        let (neg, _, _) = run(Node::Unary(UnaryOp::MINUS, Box::new(num_node(v))));
        assert_eq!(bits_of(&diff.unwrap()), bits_of(&neg.unwrap()));
    }
}

#[test]
fn switch_fallthrough_runs_next_statement() {
    let node = Node::SwitchStatement(
        Box::new(num_node(2.0)),
        vec![
            SwitchCase::Case(num_node(1.0), None),
            SwitchCase::Case(num_node(2.0), Some(Node::String("a".to_owned()))),
            SwitchCase::Default(Node::String("b".to_owned())),
        ],
    );
    let (r, _, _) = run(node);
    assert_eq!(text_of(&r.unwrap()), "a");
}

#[test]
fn switch_fallthrough_from_empty_case() {
    let node = Node::SwitchStatement(
        Box::new(num_node(1.0)),
        vec![
            SwitchCase::Case(num_node(1.0), None),
            SwitchCase::Case(num_node(2.0), Some(Node::String("a".to_owned()))),
            SwitchCase::Default(Node::String("b".to_owned())),
        ],
    );
    let (r, _, _) = run(node);
    assert_eq!(text_of(&r.unwrap()), "a");
}

#[test]
fn spread_collects_remaining_arguments() {
    let params = FunctionArguments::new(vec![
        FunctionArgument::Required("a".to_owned()),
        FunctionArgument::Spread("rest".to_owned()),
    ]);
    let args = vec![num(1.0), num(2.0), num(3.0), num(4.0)];
    let binds = params.reduce(&args).unwrap();
    assert_eq!(binds[0].0, "a");
    assert_eq!(bits_of(&binds[0].1), 1.0f64.to_bits());
    assert_eq!(binds[1].0, "rest");
    match &binds[1].1 {
        Value::Array(rest) => {
            assert_eq!(rest.len(), 3);
            assert_eq!(bits_of(&rest[0]), 2.0f64.to_bits());
            assert_eq!(bits_of(&rest[2]), 4.0f64.to_bits());
        },
        other => panic!("expected an array, got {:?}", other),
    }
}

#[test]
fn optional_parameter_falls_back_to_default() {
    let params = FunctionArguments::new(vec![
        FunctionArgument::Required("x".to_owned()),
        FunctionArgument::NotRequired("y".to_owned(), num(10.0)),
    ]);
    let args = vec![num(5.0)];
    let binds = params.reduce(&args).unwrap();
    assert_eq!(binds[0].0, "x");
    assert_eq!(bits_of(&binds[0].1), 5.0f64.to_bits());
    assert_eq!(binds[1].0, "y");
    assert_eq!(bits_of(&binds[1].1), 10.0f64.to_bits());
}

#[test]
fn missing_required_argument_is_an_arity_error() {
    let params = FunctionArguments::new(vec![FunctionArgument::Required("x".to_owned())]);
    let err = params.reduce(&vec![]).unwrap_err();
    assert_eq!(err.msg, "Missing required argument");
}

#[test]
fn string_multiplication_repeats_and_is_asymmetric() {
    let (r, _, _) = run(Node::Binary(
        BinaryOp::MULTIPLY,
        Box::new(Node::String("ab".to_owned())),
        Box::new(num_node(3.0)),
    ));
    assert_eq!(text_of(&r.unwrap()), "ababab");
    let (r2, _, _) = run(Node::Binary(
        BinaryOp::MULTIPLY,
        Box::new(num_node(5.0)),
        Box::new(Node::String("ab".to_owned())),
    ));
    assert!(is_nan_bits(bits_of(&r2.unwrap())));
}

#[test]
fn for_loop_binds_each_character() {
    // for (c in "hi") { log(c) }
    let body = Node::BlockStatement(vec![Node::FunCall(
        Box::new(Node::Var("log".to_owned())),
        vec![Node::Var("c".to_owned())],
    )]);
    let node = Node::ForStatement(
        "c".to_owned(),
        Box::new(Node::String("hi".to_owned())),
        Box::new(body),
    );
    let (r, scope, io) = run(node);
    assert!(matches!(r.unwrap(), Value::Null));
    assert_eq!(io.output, vec!["h".to_owned(), "i".to_owned()]);
    // The loop variable is bound in the enclosing scope.
    assert_eq!(text_of(&scope.get(&"c".to_owned())), "i");
}

#[test]
fn call_scope_does_not_leak_into_caller() {
    // let x = 1; fun f() { x = 2 }; f(); x is still 1 afterwards.
    let program = Node::BlockStatement(vec![
        Node::Assign(Box::new(Node::Var("x".to_owned())), Box::new(num_node(1.0))),
        Node::Fun(
            Box::new(Node::Var("f".to_owned())),
            FunctionArguments::new(vec![]),
            Box::new(Node::BlockStatement(vec![Node::AssignOp(
                AssignmentOp::EQ,
                Box::new(Node::Var("x".to_owned())),
                Box::new(num_node(2.0)),
            )])),
        ),
        Node::FunCall(Box::new(Node::Var("f".to_owned())), vec![]),
    ]);
    let (r, scope, _) = run(program);
    assert!(r.is_ok());
    assert_eq!(bits_of(&scope.get(&"x".to_owned())), 1.0f64.to_bits());
}

#[test]
fn string_interpolation_renders_bindings() {
    let program = Node::BlockStatement(vec![
        Node::Assign(Box::new(Node::Var("who".to_owned())), Box::new(Node::String(
            "moon".to_owned(),
        ))),
        Node::Return(Box::new(Node::String("hello $who!".to_owned()))),
    ]);
    let (r, _, _) = run(program);
    assert_eq!(text_of(&r.unwrap()), "hello moon!");
}

#[test]
fn unresolved_interpolation_renders_null() {
    let (r, _, _) = run(Node::String("x $nothing y".to_owned()));
    assert_eq!(text_of(&r.unwrap()), "x null y");
}

#[test]
fn compound_assignment_concatenates_strings() {
    let program = Node::BlockStatement(vec![
        Node::Assign(Box::new(Node::Var("s".to_owned())), Box::new(Node::String(
            "ab".to_owned(),
        ))),
        Node::AssignOp(
            AssignmentOp::PLUSEQ,
            Box::new(Node::Var("s".to_owned())),
            Box::new(Node::String("cd".to_owned())),
        ),
    ]);
    let (r, scope, _) = run(program);
    assert!(r.is_ok());
    assert_eq!(text_of(&scope.get(&"s".to_owned())), "abcd");
}

#[test]
fn indexed_assignment_writes_back_to_the_root() {
    // arr = [1, 2]; arr[0] = 9; arr renders with its new head.
    let program = Node::BlockStatement(vec![
        Node::Assign(
            Box::new(Node::Var("arr".to_owned())),
            Box::new(Node::Array(vec![num_node(1.0), num_node(2.0)])),
        ),
        Node::AssignOp(
            AssignmentOp::EQ,
            Box::new(Node::FieldAccess(
                Box::new(Node::Var("arr".to_owned())),
                vec![num_node(0.0)],
            )),
            Box::new(num_node(9.0)),
        ),
    ]);
    let (r, scope, _) = run(program);
    assert!(r.is_ok());
    let arr = scope.get(&"arr".to_owned());
    let head = arr.get_field(&num(0.0)).unwrap();
    assert_eq!(bits_of(&head), 9.0f64.to_bits());
}

#[test]
fn calling_a_non_function_names_the_callee() {
    let (r, _, _) = run(Node::FunCall(Box::new(Node::Var("ghost_fn".to_owned())), vec![]));
    assert_eq!(r.unwrap_err().msg, "ghost_fn is not a function");
}

#[test]
fn iterating_a_number_is_an_error() {
    let node = Node::ForStatement(
        "c".to_owned(),
        Box::new(num_node(4.0)),
        Box::new(Node::BlockStatement(vec![])),
    );
    let (r, _, _) = run(node);
    assert_eq!(r.unwrap_err().msg, "Value cannot be iterated");
}

#[test]
fn builtin_coercions_work_from_the_root_scope() {
    let (r, _, _) = run(Node::FunCall(
        Box::new(Node::Var("num".to_owned())),
        vec![Node::String("42".to_owned())],
    ));
    assert_eq!(bits_of(&r.unwrap()), 42.0f64.to_bits());
    let (r2, _, _) = run(Node::FunCall(
        Box::new(Node::Var("str".to_owned())),
        vec![Node::Bool(true)],
    ));
    assert_eq!(text_of(&r2.unwrap()), "true");
    let (r3, _, _) = run(Node::FunCall(
        Box::new(Node::Var("bool".to_owned())),
        vec![Node::String("".to_owned())],
    ));
    assert!(matches!(r3.unwrap(), Value::Boolean(false)));
}

#[test]
fn read_builtin_consumes_queued_input() {
    let program = Node::BlockStatement(vec![
        Node::Import("io".to_owned()),
        Node::Return(Box::new(Node::FunCall(
            Box::new(Node::FieldAccess(
                Box::new(Node::Var("io".to_owned())),
                vec![Node::String("read".to_owned())],
            )),
            vec![],
        ))),
    ]);
    let mut scope = Scope::new("test".to_owned());
    let mut io = fresh_io();
    io.input = vec!["first line".to_owned(), "second".to_owned()];
    let r = walk_tree(&program, &mut scope, &mut io, 10_000);
    assert_eq!(text_of(&r.unwrap()), "first line");
    assert_eq!(io.in_pos, 1);
}

#[test]
fn math_module_computes_powers_and_extremes() {
    let call = |f: &str, a: f64, b: f64| {
        let program = Node::BlockStatement(vec![
            Node::Import("math".to_owned()),
            Node::Return(Box::new(Node::FunCall(
                Box::new(Node::FieldAccess(
                    Box::new(Node::Var("math".to_owned())),
                    vec![Node::String(f.to_owned())],
                )),
                vec![num_node(a), num_node(b)],
            ))),
        ]);
        let (r, _, _) = run(program);
        bits_of(&r.unwrap())
    };
    assert_eq!(call("pow", 2.0, 10.0), 1024.0f64.to_bits());
    assert_eq!(call("max", 2.0, 10.0), 10.0f64.to_bits());
    assert_eq!(call("min", 2.0, 10.0), 2.0f64.to_bits());
}

#[test]
fn while_loop_counts_up() {
    // i = 0; while (i < 3) { i += 1 }
    let program = Node::BlockStatement(vec![
        Node::Assign(Box::new(Node::Var("i".to_owned())), Box::new(num_node(0.0))),
        Node::WhileStatement(
            Box::new(Node::Logical(
                coco::ast::LogicalOp::LT,
                Box::new(Node::Var("i".to_owned())),
                Box::new(num_node(3.0)),
            )),
            Box::new(Node::BlockStatement(vec![Node::AssignOp(
                AssignmentOp::PLUSEQ,
                Box::new(Node::Var("i".to_owned())),
                Box::new(num_node(1.0)),
            )])),
        ),
    ]);
    let (r, scope, _) = run(program);
    assert!(r.is_ok());
    assert_eq!(bits_of(&scope.get(&"i".to_owned())), 3.0f64.to_bits());
}

#[test]
fn evaluation_budget_reports_exhaustion() {
    let mut scope = Scope::new("test".to_owned());
    let mut io = fresh_io();
    let r = walk_tree(&Node::Null, &mut scope, &mut io, 0);
    assert_eq!(r.unwrap_err().msg, "Evaluation budget exhausted");
}

#[test]
fn comparison_coerces_against_the_left_kind() {
    let a = Value::String("10".to_owned());
    let eq = a.compare(&num(10.0));
    // A string compares lexicographically against the other side's text.
    assert_eq!(eq, std::cmp::Ordering::Equal);
    let n = num(2.0);
    assert_eq!(n.compare(&Value::String("10".to_owned())), std::cmp::Ordering::Less);
}

#[test]
fn function_values_render_with_a_placeholder() {
    let f = Value::Function(
        "greet".to_owned(),
        FunctionArguments::new(vec![]),
        FuncImpl::FromNode(Node::Null),
    );
    assert_eq!(f.as_string(), "fun greet { ... }");
    assert!(f.as_bool());
}

#[test]
fn containers_render_joined() {
    let arr = Value::Array(vec![num(1.0), num(2.0)]);
    let obj = Value::Object(vec![
        ("a".to_owned(), num(1.0)),
        ("b".to_owned(), Value::String("x".to_owned())),
    ]);
    let one = num(1.0).as_string();
    let two = num(2.0).as_string();
    assert_eq!(arr.as_string(), format!("{},{}", one, two));
    assert_eq!(obj.as_string(), format!("a: {}, b: x", one));
}

#[test]
fn switch_arm_return_yields_its_value() {
    // switch(2) { case 1: case 2: return "a"; default: return "b" }
    let node = Node::SwitchStatement(
        Box::new(num_node(2.0)),
        vec![
            SwitchCase::Case(num_node(1.0), None),
            SwitchCase::Case(
                num_node(2.0),
                Some(Node::Return(Box::new(Node::String("a".to_owned())))),
            ),
            SwitchCase::Default(Node::Return(Box::new(Node::String("b".to_owned())))),
        ],
    );
    let (r, _, _) = run(node);
    assert_eq!(text_of(&r.unwrap()), "a");
}

#[test]
fn nan_is_truthy_and_zero_is_not() {
    let nan = Value::Number(f64::NAN.to_bits());
    assert!(nan.as_bool());
    assert!(!num(0.0).as_bool());
    assert!(!num(-0.0).as_bool());
    assert!(num(0.5).as_bool());
}

#[test]
fn reading_a_field_of_a_number_is_an_error() {
    let err = num(4.0).get_field(&Value::String("length".to_owned())).unwrap_err();
    assert_eq!(err.msg, "Cannot read field of this value");
}
