//! The abstract syntax tree the parser produces and the evaluator walks.
//! Number literals carry the bits of their double, as runtime numbers do.
//!
//! Each node kind has a ghost mirror ([`Nm`], [`Cm`]) reached by the views
//! [`nm`] and [`cm`]; contracts speak of nodes through those.
use vstd::prelude::*;

use crate::types::{pm, Pm, FunctionArgument, FunctionArguments};

verus! {

broadcast use {vstd::std_specs::vec::group_vec_axioms, vstd::seq::group_seq_axioms};

/// Assignment forms: plain `=` and the compound operators.
#[derive(Clone, Copy, Debug, PartialEq, Eq, Structural)]
pub enum AssignmentOp {
    EQ,
    PLUSEQ,
    MINUSEQ,
    MULEQ,
    DIVEQ,
    REMEQ,
    EXPEQ,
}

/// Eagerly evaluated logical and comparison operators.
#[derive(Clone, Copy, Debug, PartialEq, Eq, Structural)]
pub enum LogicalOp {
    OR,
    AND,
    EQ,
    NOTEQ,
    GTEQ,
    GT,
    LT,
    LTEQ,
}

/// Binary arithmetic operators, dispatched on the left operand's kind.
#[derive(Clone, Copy, Debug, PartialEq, Eq, Structural)]
pub enum BinaryOp {
    PLUS,
    MINUS,
    MULTIPLY,
    DIVIDE,
    REMAINDER,
    EXPONENT,
}

/// Unary operators.
#[derive(Clone, Copy, Debug, PartialEq, Eq, Structural)]
pub enum UnaryOp {
    MINUS,
    NOT,
}

/// One arm of a `switch`: a case with an optional statement (a case
/// without one falls through), or the default.
#[derive(Debug)]
pub enum SwitchCase {
    Case(Node, Option<Node>),
    Default(Node),
}

/// An AST node. Each node carries enough to evaluate independently:
/// operand sub-nodes, an operator tag, or a literal payload.
#[derive(Debug)]
pub enum Node {
    Import(String),
    ImportFrom(String, Vec<String>),
    Assign(Box<Node>, Box<Node>),
    AssignOp(AssignmentOp, Box<Node>, Box<Node>),
    String(String),
    Number(u64),
    Bool(bool),
    Array(Vec<Node>),
    Object(Vec<(String, Node)>),
    Class(String, Option<Box<Node>>, Vec<(String, Node)>),
    Null,
    Var(String),
    FieldAccess(Box<Node>, Vec<Node>),
    Range(Box<Node>, Box<Node>, bool),
    BlockStatement(Vec<Node>),
    IfElseStatement(Box<Node>, Box<Node>, Option<Box<Node>>),
    WhileStatement(Box<Node>, Box<Node>),
    ForStatement(String, Box<Node>, Box<Node>),
    SwitchStatement(Box<Node>, Vec<SwitchCase>),
    FunCall(Box<Node>, Vec<Node>),
    Return(Box<Node>),
    Fun(Box<Node>, FunctionArguments, Box<Node>),
    Logical(LogicalOp, Box<Node>, Box<Node>),
    Binary(BinaryOp, Box<Node>, Box<Node>),
    Unary(UnaryOp, Box<Node>),
    Ternary(Box<Node>, Box<Node>, Box<Node>),
}

/// The ghost mirror of [`SwitchCase`].
pub ghost enum Cm {
    Case(Nm, Option<Nm>),
    Default(Nm),
}

/// The ghost mirror of [`Node`].
pub ghost enum Nm {
    Import(Seq<char>),
    ImportFrom(Seq<char>, Seq<Seq<char>>),
    Assign(Box<Nm>, Box<Nm>),
    AssignOp(AssignmentOp, Box<Nm>, Box<Nm>),
    Str(Seq<char>),
    Num(u64),
    Bool(bool),
    Arr(Seq<Nm>),
    Obj(Seq<(Seq<char>, Nm)>),
    Class(Seq<char>, Option<Box<Nm>>, Seq<(Seq<char>, Nm)>),
    Null,
    Var(Seq<char>),
    FieldAccess(Box<Nm>, Seq<Nm>),
    Range(Box<Nm>, Box<Nm>, bool),
    Block(Seq<Nm>),
    IfElse(Box<Nm>, Box<Nm>, Option<Box<Nm>>),
    While(Box<Nm>, Box<Nm>),
    For(Seq<char>, Box<Nm>, Box<Nm>),
    Switch(Box<Nm>, Seq<Cm>),
    FunCall(Box<Nm>, Seq<Nm>),
    Return(Box<Nm>),
    Fun(Box<Nm>, Seq<Pm>, Box<Nm>),
    Logical(LogicalOp, Box<Nm>, Box<Nm>),
    Binary(BinaryOp, Box<Nm>, Box<Nm>),
    Unary(UnaryOp, Box<Nm>),
    Ternary(Box<Nm>, Box<Nm>, Box<Nm>),
}

/// The ghost value of one switch arm.
pub open spec fn cm(c: SwitchCase) -> Cm
    decreases c,
{
    match c {
        SwitchCase::Case(v, st) => Cm::Case(
            nm(v),
            match st {
                Some(s) => Some(nm(s)),
                None => None,
            },
        ),
        SwitchCase::Default(s) => Cm::Default(nm(s)),
    }
}

/// The ghost values of a node list.
pub open spec fn nms(a: Seq<Node>) -> Seq<Nm>
    decreases a,
{
    if a.len() == 0 {
        Seq::empty()
    } else {
        nms(a.drop_last()).push(nm(a.last()))
    }
}

/// The ghost values of a name/node pair list.
pub open spec fn nprs(a: Seq<(String, Node)>) -> Seq<(Seq<char>, Nm)>
    decreases a,
{
    if a.len() == 0 {
        Seq::empty()
    } else {
        nprs(a.drop_last()).push((a.last().0@, nm(a.last().1)))
    }
}

/// The ghost values of a switch-arm list.
pub open spec fn cms(a: Seq<SwitchCase>) -> Seq<Cm>
    decreases a,
{
    if a.len() == 0 {
        Seq::empty()
    } else {
        cms(a.drop_last()).push(cm(a.last()))
    }
}

/// The views of a list of strings.
pub open spec fn strs(a: Seq<String>) -> Seq<Seq<char>>
    decreases a,
{
    if a.len() == 0 {
        Seq::empty()
    } else {
        strs(a.drop_last()).push(a.last()@)
    }
}

/// `nms` maps elementwise.
pub broadcast proof fn lemma_nms(a: Seq<Node>)
    ensures
        (#[trigger] nms(a)).len() == a.len(),
        forall|i: int| 0 <= i < a.len() ==> nms(a)[i] == nm(a[i]),
    decreases a.len(),
{
    if a.len() > 0 {
        lemma_nms(a.drop_last());
    }
}

/// `nprs` maps elementwise.
pub broadcast proof fn lemma_nprs(a: Seq<(String, Node)>)
    ensures
        (#[trigger] nprs(a)).len() == a.len(),
        forall|i: int| 0 <= i < a.len() ==> nprs(a)[i] == (a[i].0@, nm(a[i].1)),
    decreases a.len(),
{
    if a.len() > 0 {
        lemma_nprs(a.drop_last());
    }
}

/// `cms` maps elementwise.
pub broadcast proof fn lemma_cms(a: Seq<SwitchCase>)
    ensures
        (#[trigger] cms(a)).len() == a.len(),
        forall|i: int| 0 <= i < a.len() ==> cms(a)[i] == cm(a[i]),
    decreases a.len(),
{
    if a.len() > 0 {
        lemma_cms(a.drop_last());
    }
}

/// `strs` maps elementwise.
pub broadcast proof fn lemma_strs(a: Seq<String>)
    ensures
        (#[trigger] strs(a)).len() == a.len(),
        forall|i: int| 0 <= i < a.len() ==> strs(a)[i] == a[i]@,
    decreases a.len(),
{
    if a.len() > 0 {
        lemma_strs(a.drop_last());
    }
}

/// The ghost value of an AST node.
pub open spec fn nm(n: Node) -> Nm
    decreases n,
{
    match n {
        Node::Import(m) => Nm::Import(m@),
        Node::ImportFrom(m, os) => Nm::ImportFrom(m@, strs(os@)),
        Node::Assign(a, b) => Nm::Assign(Box::new(nm(*a)), Box::new(nm(*b))),
        Node::AssignOp(op, a, b) => Nm::AssignOp(op, Box::new(nm(*a)), Box::new(nm(*b))),
        Node::String(s) => Nm::Str(s@),
        Node::Number(b) => Nm::Num(b),
        Node::Bool(x) => Nm::Bool(x),
        Node::Array(a) => Nm::Arr(nms(a@)),
        Node::Object(o) => Nm::Obj(nprs(o@)),
        Node::Class(name, c, ms) => Nm::Class(
            name@,
            match c {
                Some(b) => Some(Box::new(nm(*b))),
                None => None,
            },
            nprs(ms@),
        ),
        Node::Null => Nm::Null,
        Node::Var(name) => Nm::Var(name@),
        Node::FieldAccess(v, idx) => Nm::FieldAccess(Box::new(nm(*v)), nms(idx@)),
        Node::Range(a, b, inc) => Nm::Range(Box::new(nm(*a)), Box::new(nm(*b)), inc),
        Node::BlockStatement(ss) => Nm::Block(nms(ss@)),
        Node::IfElseStatement(c, t, e) => Nm::IfElse(
            Box::new(nm(*c)),
            Box::new(nm(*t)),
            match e {
                Some(b) => Some(Box::new(nm(*b))),
                None => None,
            },
        ),
        Node::WhileStatement(c, b) => Nm::While(Box::new(nm(*c)), Box::new(nm(*b))),
        Node::ForStatement(v, it, b) => Nm::For(v@, Box::new(nm(*it)), Box::new(nm(*b))),
        Node::SwitchStatement(v, cs) => Nm::Switch(Box::new(nm(*v)), cms(cs@)),
        Node::FunCall(f, args) => Nm::FunCall(Box::new(nm(*f)), nms(args@)),
        Node::Return(v) => Nm::Return(Box::new(nm(*v))),
        Node::Fun(v, ps, b) => Nm::Fun(Box::new(nm(*v)), crate::types::pms(ps.args@), Box::new(nm(*b))),
        Node::Logical(op, a, b) => Nm::Logical(op, Box::new(nm(*a)), Box::new(nm(*b))),
        Node::Binary(op, a, b) => Nm::Binary(op, Box::new(nm(*a)), Box::new(nm(*b))),
        Node::Unary(op, a) => Nm::Unary(op, Box::new(nm(*a))),
        Node::Ternary(c, t, e) => Nm::Ternary(Box::new(nm(*c)), Box::new(nm(*t)), Box::new(nm(*e))),
    }
}

/// A deep copy of a node list with the same ghost values.
#[verifier::loop_isolation(false)]
pub fn nodes_clone(a: &Vec<Node>) -> (r: Vec<Node>)
    ensures
        nms(r@) == nms(a@),
    decreases a,
{
    let mut out: Vec<Node> = Vec::new();
    let mut i: usize = 0;
    while i < a.len()
        invariant
            i <= a@.len(),
            out@.len() == i,
            forall|j: int| 0 <= j < i ==> nm(out@[j]) == nm(a@[j]),
        decreases a@.len() - i,
    {
        out.push(node_clone(&a[i]));
        i = i + 1;
    }
    proof {
        lemma_nms(out@);
        lemma_nms(a@);
        assert(nms(out@) =~= nms(a@));
    }
    out
}

/// A deep copy of a name/node pair list with the same ghost values.
#[verifier::loop_isolation(false)]
pub fn node_pairs_clone(a: &Vec<(String, Node)>) -> (r: Vec<(String, Node)>)
    ensures
        nprs(r@) == nprs(a@),
    decreases a,
{
    let mut out: Vec<(String, Node)> = Vec::new();
    let mut i: usize = 0;
    while i < a.len()
        invariant
            i <= a@.len(),
            out@.len() == i,
            forall|j: int| 0 <= j < i ==> out@[j].0@ == a@[j].0@ && nm(out@[j].1) == nm(a@[j].1),
        decreases a@.len() - i,
    {
        let entry = (a[i].0.clone(), node_clone(&a[i].1));
        out.push(entry);
        i = i + 1;
    }
    proof {
        lemma_nprs(out@);
        lemma_nprs(a@);
        assert(nprs(out@) =~= nprs(a@));
    }
    out
}

/// A deep copy of a switch-arm list with the same ghost values.
#[verifier::loop_isolation(false)]
pub fn cases_clone(a: &Vec<SwitchCase>) -> (r: Vec<SwitchCase>)
    ensures
        cms(r@) == cms(a@),
    decreases a,
{
    let mut out: Vec<SwitchCase> = Vec::new();
    let mut i: usize = 0;
    while i < a.len()
        invariant
            i <= a@.len(),
            out@.len() == i,
            forall|j: int| 0 <= j < i ==> cm(out@[j]) == cm(a@[j]),
        decreases a@.len() - i,
    {
        let c = match &a[i] {
            SwitchCase::Case(v, st) => SwitchCase::Case(
                node_clone(v),
                match st {
                    Some(s) => Some(node_clone(s)),
                    None => None,
                },
            ),
            SwitchCase::Default(s) => SwitchCase::Default(node_clone(s)),
        };
        out.push(c);
        i = i + 1;
    }
    proof {
        lemma_cms(out@);
        lemma_cms(a@);
        assert(cms(out@) =~= cms(a@));
    }
    out
}

/// A deep copy of a node with the same ghost value.
#[verifier::loop_isolation(false)]
pub fn node_clone(n: &Node) -> (r: Node)
    ensures
        nm(r) == nm(*n),
    decreases n,
{
    match n {
        Node::Import(m) => Node::Import(m.clone()),
        Node::ImportFrom(m, os) => {
            let mut out: Vec<String> = Vec::new();
            let mut i: usize = 0;
            while i < os.len()
                invariant
                    i <= os@.len(),
                    out@.len() == i,
                    forall|j: int| 0 <= j < i ==> out@[j]@ == os@[j]@,
                decreases os@.len() - i,
            {
                out.push(os[i].clone());
                i = i + 1;
            }
            proof {
                lemma_strs(out@);
                lemma_strs(os@);
                assert(strs(out@) =~= strs(os@));
            }
            Node::ImportFrom(m.clone(), out)
        },
        Node::Assign(a, b) => Node::Assign(Box::new(node_clone(a)), Box::new(node_clone(b))),
        Node::AssignOp(op, a, b) => Node::AssignOp(
            *op,
            Box::new(node_clone(a)),
            Box::new(node_clone(b)),
        ),
        Node::String(s) => Node::String(s.clone()),
        Node::Number(b) => Node::Number(*b),
        Node::Bool(x) => Node::Bool(*x),
        Node::Array(a) => Node::Array(nodes_clone(a)),
        Node::Object(o) => Node::Object(node_pairs_clone(o)),
        Node::Class(name, c, ms) => Node::Class(
            name.clone(),
            match c {
                Some(b) => Some(Box::new(node_clone(b))),
                None => None,
            },
            node_pairs_clone(ms),
        ),
        Node::Null => Node::Null,
        Node::Var(name) => Node::Var(name.clone()),
        Node::FieldAccess(v, idx) => Node::FieldAccess(Box::new(node_clone(v)), nodes_clone(idx)),
        Node::Range(a, b, inc) => Node::Range(
            Box::new(node_clone(a)),
            Box::new(node_clone(b)),
            *inc,
        ),
        Node::BlockStatement(ss) => Node::BlockStatement(nodes_clone(ss)),
        Node::IfElseStatement(c, t, e) => Node::IfElseStatement(
            Box::new(node_clone(c)),
            Box::new(node_clone(t)),
            match e {
                Some(b) => Some(Box::new(node_clone(b))),
                None => None,
            },
        ),
        Node::WhileStatement(c, b) => Node::WhileStatement(
            Box::new(node_clone(c)),
            Box::new(node_clone(b)),
        ),
        Node::ForStatement(v, it, b) => Node::ForStatement(
            v.clone(),
            Box::new(node_clone(it)),
            Box::new(node_clone(b)),
        ),
        Node::SwitchStatement(v, cs) => Node::SwitchStatement(
            Box::new(node_clone(v)),
            cases_clone(cs),
        ),
        Node::FunCall(f, args) => Node::FunCall(Box::new(node_clone(f)), nodes_clone(args)),
        Node::Return(v) => Node::Return(Box::new(node_clone(v))),
        Node::Fun(v, ps, b) => Node::Fun(
            Box::new(node_clone(v)),
            crate::types::params_clone(ps),
            Box::new(node_clone(b)),
        ),
        Node::Logical(op, a, b) => Node::Logical(
            *op,
            Box::new(node_clone(a)),
            Box::new(node_clone(b)),
        ),
        Node::Binary(op, a, b) => Node::Binary(
            *op,
            Box::new(node_clone(a)),
            Box::new(node_clone(b)),
        ),
        Node::Unary(op, a) => Node::Unary(*op, Box::new(node_clone(a))),
        Node::Ternary(c, t, e) => Node::Ternary(
            Box::new(node_clone(c)),
            Box::new(node_clone(t)),
            Box::new(node_clone(e)),
        ),
    }
}

} // verus!
