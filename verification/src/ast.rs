//! The syntax tree shared by the type checker and the evaluator.

use vstd::prelude::*;

verus! {

/// Operators of binary and unary expressions.
#[derive(Debug, Clone, Copy, PartialEq, Eq, Structural)]
pub enum Opcode {
    Add,
    Sub,
    Mul,
    Div,
    Mod,
    Equals,
    Less,
    Greater,
    LessOrEq,
    GreaterorEq,
    Neq,
    And,
    Or,
    Not,
    UnarySub,
    Ref,
    MutRef,
    DeRef,
}

impl Opcode {
    /// Whether the operator is one of `+ - * / %`.
    pub open spec fn is_arith(self) -> bool {
        self is Add || self is Sub || self is Mul || self is Div || self is Mod
    }
}

/// One node of the syntax tree.
#[derive(Debug, PartialEq, Eq)]
pub enum Node {
    Number(i32),
    Boolean(bool),
    ID(String),
    /// A type annotation on its own.
    Type(String),
    Op(Box<Node>, Opcode, Box<Node>),
    UnaryOp(Opcode, Box<Node>),
    /// Callee name and arguments.
    Call(String, Vec<Box<Node>>),
    /// Target name and new value.
    Assign(String, Box<Node>),
    /// Write through a reference: operator, reference name, new value.
    WriteByRef(Opcode, String, Box<Node>),
    IfStmt(Box<Node>, Vec<Box<Node>>),
    IfElse(Box<Node>, Vec<Box<Node>>, Vec<Box<Node>>),
    While(Box<Node>, Vec<Box<Node>>),
    /// Name, parameters, optional return annotation, body.
    FnDef(String, Vec<Box<Node>>, Option<String>, Vec<Box<Node>>),
    /// Parameter name and its annotation.
    ParamDef(String, String),
    /// Name, mutability, optional annotation, optional initializer.
    Declaration(String, bool, Option<String>, Option<Box<Node>>),
    Return(Option<Box<Node>>),
    /// The unterminated final expression of a block.
    BlockValue(Box<Node>),
    Program(Vec<Box<Node>>),
}

/// The syntax tree as a mathematical value: names are sequences of
/// characters and lists of children are sequences.
pub ghost enum Ast {
    Number(i32),
    Boolean(bool),
    ID(Seq<char>),
    Type(Seq<char>),
    Op(Box<Ast>, Opcode, Box<Ast>),
    UnaryOp(Opcode, Box<Ast>),
    Call(Seq<char>, Seq<Ast>),
    Assign(Seq<char>, Box<Ast>),
    WriteByRef(Opcode, Seq<char>, Box<Ast>),
    IfStmt(Box<Ast>, Seq<Ast>),
    IfElse(Box<Ast>, Seq<Ast>, Seq<Ast>),
    While(Box<Ast>, Seq<Ast>),
    FnDef(Seq<char>, Seq<Ast>, Option<Seq<char>>, Seq<Ast>),
    ParamDef(Seq<char>, Seq<char>),
    Declaration(Seq<char>, bool, Option<Seq<char>>, Option<Box<Ast>>),
    Return(Option<Box<Ast>>),
    BlockValue(Box<Ast>),
    Program(Seq<Ast>),
}

/// The view of an optional string.
pub open spec fn opt_str_view(o: Option<String>) -> Option<Seq<char>> {
    match o {
        Some(s) => Some(s@),
        None => None,
    }
}

/// The views of a list of nodes, in order.
pub open spec fn nodes_view(v: Seq<Box<Node>>) -> Seq<Ast>
    decreases v,
{
    Seq::new(v.len(), |i: int| if 0 <= i < v.len() { node_view(*v[i]) } else { Ast::Boolean(false) })
}

/// The view of one node.
pub open spec fn node_view(n: Node) -> Ast
    decreases n,
{
    match n {
        Node::Number(n) => Ast::Number(n),
        Node::Boolean(b) => Ast::Boolean(b),
        Node::ID(s) => Ast::ID(s@),
        Node::Type(s) => Ast::Type(s@),
        Node::Op(l, o, r) => Ast::Op(Box::new(node_view(*l)), o, Box::new(node_view(*r))),
        Node::UnaryOp(o, e) => Ast::UnaryOp(o, Box::new(node_view(*e))),
        Node::Call(s, args) => Ast::Call(s@, nodes_view(args@)),
        Node::Assign(s, e) => Ast::Assign(s@, Box::new(node_view(*e))),
        Node::WriteByRef(o, s, e) => Ast::WriteByRef(o, s@, Box::new(node_view(*e))),
        Node::IfStmt(c, body) => Ast::IfStmt(Box::new(node_view(*c)), nodes_view(body@)),
        Node::IfElse(c, a, b) => Ast::IfElse(
            Box::new(node_view(*c)),
            nodes_view(a@),
            nodes_view(b@),
        ),
        Node::While(c, body) => Ast::While(Box::new(node_view(*c)), nodes_view(body@)),
        Node::FnDef(s, params, ret, body) => Ast::FnDef(
            s@,
            nodes_view(params@),
            opt_str_view(ret),
            nodes_view(body@),
        ),
        Node::ParamDef(s, t) => Ast::ParamDef(s@, t@),
        Node::Declaration(s, m, t, e) => Ast::Declaration(
            s@,
            m,
            opt_str_view(t),
            match e {
                Some(e) => Some(Box::new(node_view(*e))),
                None => None,
            },
        ),
        Node::Return(e) => Ast::Return(
            match e {
                Some(e) => Some(Box::new(node_view(*e))),
                None => None,
            },
        ),
        Node::BlockValue(e) => Ast::BlockValue(Box::new(node_view(*e))),
        Node::Program(fns) => Ast::Program(nodes_view(fns@)),
    }
}

impl View for Node {
    type V = Ast;

    open spec fn view(&self) -> Ast {
        node_view(*self)
    }
}

/// Whether a string holds the text `lit`.
pub fn is_text(s: &String, lit: &str) -> (r: bool)
    ensures
        r == (s@ == lit@),
{
    let t = lit.to_owned();
    *s == t
}

/// A copy of an optional string.
pub fn copy_opt_string(o: &Option<String>) -> (r: Option<String>)
    ensures
        opt_str_view(r) == opt_str_view(*o),
{
    match o {
        Some(s) => Some(s.clone()),
        None => None,
    }
}

/// A deep copy of a list of nodes.
pub fn copy_nodes(v: &Vec<Box<Node>>) -> (r: Vec<Box<Node>>)
    ensures
        nodes_view(r@) == nodes_view(v@),
    decreases *v, 0nat,
{
    let mut out: Vec<Box<Node>> = Vec::new();
    let mut i: usize = 0;
    while i < v.len()
        invariant
            i <= v.len(),
            out@.len() == i,
            forall|j: int| 0 <= j < i ==> node_view(*out@[j]) == node_view(*v@[j]),
        decreases v.len() - i,
    {
        let c = copy_node(&v[i]);
        out.push(Box::new(c));
        i += 1;
    }
    assert(nodes_view(out@) =~= nodes_view(v@));
    out
}

/// A deep copy of one node.
pub fn copy_node(n: &Node) -> (r: Node)
    ensures
        r@ == n@,
    decreases *n, 1nat,
{
    match n {
        Node::Number(k) => Node::Number(*k),
        Node::Boolean(b) => Node::Boolean(*b),
        Node::ID(s) => Node::ID(s.clone()),
        Node::Type(s) => Node::Type(s.clone()),
        Node::Op(l, o, r) => Node::Op(Box::new(copy_node(l)), *o, Box::new(copy_node(r))),
        Node::UnaryOp(o, e) => Node::UnaryOp(*o, Box::new(copy_node(e))),
        Node::Call(s, args) => Node::Call(s.clone(), copy_nodes(args)),
        Node::Assign(s, e) => Node::Assign(s.clone(), Box::new(copy_node(e))),
        Node::WriteByRef(o, s, e) => Node::WriteByRef(*o, s.clone(), Box::new(copy_node(e))),
        Node::IfStmt(c, body) => Node::IfStmt(Box::new(copy_node(c)), copy_nodes(body)),
        Node::IfElse(c, a, b) => Node::IfElse(
            Box::new(copy_node(c)),
            copy_nodes(a),
            copy_nodes(b),
        ),
        Node::While(c, body) => Node::While(Box::new(copy_node(c)), copy_nodes(body)),
        Node::FnDef(s, params, ret, body) => Node::FnDef(
            s.clone(),
            copy_nodes(params),
            copy_opt_string(ret),
            copy_nodes(body),
        ),
        Node::ParamDef(s, t) => Node::ParamDef(s.clone(), t.clone()),
        Node::Declaration(s, m, t, e) => Node::Declaration(
            s.clone(),
            *m,
            copy_opt_string(t),
            match e {
                Some(e) => Some(Box::new(copy_node(e))),
                None => None,
            },
        ),
        Node::Return(e) => Node::Return(
            match e {
                Some(e) => Some(Box::new(copy_node(e))),
                None => None,
            },
        ),
        Node::BlockValue(e) => Node::BlockValue(Box::new(copy_node(e))),
        Node::Program(fns) => Node::Program(copy_nodes(fns)),
    }
}

impl Clone for Node {
    fn clone(&self) -> (r: Self)
        ensures
            r@ == self@,
    {
        copy_node(self)
    }
}

} // verus!
