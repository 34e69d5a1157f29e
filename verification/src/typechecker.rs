//! The type checker: a recursive descent over the syntax tree that yields a
//! type or the first typing error, and is proved to follow the typing rules.

use vstd::prelude::*;
use crate::ast::{is_text, nodes_view, opt_str_view, Ast, Node, Opcode};
use crate::scope::{env_declare, env_lookup, env_pop, env_push, ScopeStack};
use crate::table::Table;
use crate::types::{FnSig, TypeError};
pub use crate::types::{FnInfo, Types, VarInfo};
use crate::typing::{
    annotation_type, args_agree, binary_type, bind_params, block_type, body_type, call_type, check,
    check_block, check_program, check_seq, defs_ok, last_result, param_name_of, param_type,
    param_type_of, param_types, params_ok, register_all, return_type, settle_return, yields_result,
    Checked, CheckedDef, CheckedList, check_def,
};

verus! {

/// The checker's environment: the types and mutability of the visible
/// variables, scope by scope.
pub struct Context {
    var_env: ScopeStack<VarInfo>,
}

/// The checker's function table: the signature of each registered function.
pub struct FnContext {
    fn_env: Table<FnInfo>,
}

impl Context {
    pub closed spec fn wf(&self) -> bool {
        self.var_env.wf()
    }

    /// The scope frames, innermost first.
    pub closed spec fn view(&self) -> Seq<Map<Seq<char>, VarInfo>> {
        self.var_env@
    }

    /// An environment without frames.
    pub fn new() -> (c: Context)
        ensures
            c.wf(),
            c@ == Seq::<Map<Seq<char>, VarInfo>>::empty(),
    {
        Context { var_env: ScopeStack::new() }
    }

    /// What is known of the variable that `id` resolves to.
    pub fn get(&self, id: &String) -> (r: Option<VarInfo>)
        requires
            self.wf(),
        ensures
            r == env_lookup(self@, id@),
    {
        match self.var_env.lookup(id) {
            Some(v) => Some(v.clone()),
            None => None,
        }
    }

    /// Declares `id` in the innermost scope.
    pub fn insert(&mut self, id: &String, t: &Types, mutable: &bool)
        requires
            old(self).wf(),
        ensures
            final(self).wf(),
            final(self)@ == env_declare(old(self)@, id@, VarInfo { t: *t, mutable: *mutable }),
    {
        self.var_env.declare(id.clone(), VarInfo { t: t.copy(), mutable: *mutable });
    }

    /// Enters a block.
    pub fn add_scope(&mut self)
        requires
            old(self).wf(),
        ensures
            final(self).wf(),
            final(self)@ == env_push(old(self)@),
    {
        self.var_env.push_scope();
    }

    /// Leaves a block.
    pub fn remove_scope(&mut self)
        requires
            old(self).wf(),
        ensures
            final(self).wf(),
            final(self)@ == env_pop(old(self)@),
    {
        self.var_env.pop_scope();
    }
}

impl FnContext {
    pub closed spec fn wf(&self) -> bool {
        self.fn_env.wf()
    }

    /// The registered signatures by function name.
    pub closed spec fn view(&self) -> Map<Seq<char>, FnSig> {
        self.fn_env@
    }

    /// A table without functions.
    pub fn new() -> (f: FnContext)
        ensures
            f.wf(),
            f@ == Map::<Seq<char>, FnSig>::empty(),
    {
        FnContext { fn_env: Table::new() }
    }

    /// Registers a signature under `name`, replacing an earlier one.
    pub fn register(&mut self, name: &String, ret: Types, params: Vec<Types>)
        requires
            old(self).wf(),
        ensures
            final(self).wf(),
            final(self)@ == old(self)@.insert(name@, FnSig { ret, params: params@ }),
    {
        self.fn_env.insert(name.clone(), FnInfo { ret, params });
    }
}

/// A sample environment with one scope: the mutable number `A`, the
/// immutable number `B` and the mutable Boolean `D`.
pub fn init_context() -> (c: Context)
    ensures
        c.wf(),
        c@ == env_declare(
            env_declare(
                env_declare(
                    Seq::empty(),
                    "A"@,
                    VarInfo { t: Types::Number, mutable: true },
                ),
                "B"@,
                VarInfo { t: Types::Number, mutable: false },
            ),
            "D"@,
            VarInfo { t: Types::Boolean, mutable: true },
        ),
{
    let mut c = Context::new();
    c.insert(&"A".to_owned(), &Types::Number, &true);
    c.insert(&"B".to_owned(), &Types::Number, &false);
    c.insert(&"D".to_owned(), &Types::Boolean, &true);
    c
}

/// A sample function table with the one function `foo`, which takes a
/// number, a Boolean and a number and returns a number.
pub fn init_funcs() -> (f: FnContext)
    ensures
        f.wf(),
        f@ == Map::<Seq<char>, FnSig>::empty().insert(
            "foo"@,
            FnSig { ret: Types::Number, params: seq![Types::Number, Types::Boolean, Types::Number] },
        ),
{
    let mut params: Vec<Types> = Vec::new();
    params.push(Types::Number);
    params.push(Types::Boolean);
    params.push(Types::Number);
    assert(params@ =~= seq![Types::Number, Types::Boolean, Types::Number]);
    let mut f = FnContext::new();
    f.register(&"foo".to_owned(), Types::Number, params);
    f
}

/// Whether `r` and the state after a check are what the typing rules give
/// for `node` in the state before it.
pub open spec fn follows_rules(
    node: Ast,
    r: Result<Types, TypeError>,
    env0: Seq<Map<Seq<char>, VarInfo>>,
    funcs0: Map<Seq<char>, FnSig>,
    env1: Seq<Map<Seq<char>, VarInfo>>,
    funcs1: Map<Seq<char>, FnSig>,
) -> bool {
    check(node, env0, funcs0) == (Checked { result: r, env: env1, funcs: funcs1 })
}

/// Reads the annotation of a declaration.
fn read_annotation(s: &String) -> (r: Option<Types>)
    ensures
        r == annotation_type(s@),
{
    if is_text(s, ": i32") {
        Some(Types::Number)
    } else if is_text(s, ": bool") {
        Some(Types::Boolean)
    } else if is_text(s, ": &i32") {
        Some(Types::Ref(Box::new(Types::Number)))
    } else if is_text(s, ": &bool") {
        Some(Types::Ref(Box::new(Types::Boolean)))
    } else {
        None
    }
}

/// Reads the return annotation of a function definition.
fn read_return(ann: &Option<String>) -> (r: Option<Types>)
    ensures
        r == return_type(opt_str_view(*ann)),
{
    match ann {
        None => Some(Types::Unknown),
        Some(s) => {
            if is_text(s, "i32") {
                Some(Types::Number)
            } else if is_text(s, "bool") {
                Some(Types::Boolean)
            } else if is_text(s, "()") {
                Some(Types::UnitType)
            } else if is_text(s, "&i32") {
                Some(Types::Ref(Box::new(Types::Number)))
            } else if is_text(s, "&bool") {
                Some(Types::Ref(Box::new(Types::Boolean)))
            } else {
                None
            }
        },
    }
}

/// The type that the annotation of a parameter names.
pub fn type_check_param_def(def: &String) -> (r: Result<Types, TypeError>)
    ensures
        r == (match param_type(def@) {
            Some(t) => Ok::<Types, TypeError>(t),
            None => Err(TypeError::Malformed),
        }),
{
    if is_text(def, ": &mut i32") {
        Ok(Types::MutRef(Box::new(Types::Number)))
    } else if is_text(def, ": &mut bool") {
        Ok(Types::MutRef(Box::new(Types::Boolean)))
    } else {
        match read_annotation(def) {
            Some(t) => Ok(t),
            None => Err(TypeError::Malformed),
        }
    }
}

/// The type of `a op b` for operands of the given types.
fn binary_result(op: &Opcode, lt: &Types, rt: &Types) -> (r: Result<Types, TypeError>)
    ensures
        r == binary_type(*op, *lt, *rt),
{
    let l = lt.get_type_id();
    let r = rt.get_type_id();
    match op {
        Opcode::Add | Opcode::Sub | Opcode::Mul | Opcode::Div | Opcode::Mod => {
            if l == 2 && r == 2 {
                Ok(Types::Number)
            } else {
                Err(TypeError::TypeMismatch)
            }
        },
        Opcode::Less | Opcode::LessOrEq | Opcode::Greater | Opcode::GreaterorEq => {
            if l == 2 && r == 2 {
                Ok(Types::Boolean)
            } else {
                Err(TypeError::TypeMismatch)
            }
        },
        Opcode::Equals | Opcode::Neq => {
            if (l == 2 || l == 1) && l == r {
                Ok(Types::Boolean)
            } else {
                Err(TypeError::TypeMismatch)
            }
        },
        Opcode::And | Opcode::Or => {
            if l == 1 && r == 1 {
                Ok(Types::Boolean)
            } else {
                Err(TypeError::TypeMismatch)
            }
        },
        _ => Err(TypeError::Malformed),
    }
}

/// Checks the nodes from left to right and collects their types.
fn check_list(nodes: &Vec<Box<Node>>, context: &mut Context, funcs: &mut FnContext) -> (r: Result<
    Vec<Types>,
    TypeError,
>)
    requires
        old(context).wf(),
        old(funcs).wf(),
    ensures
        final(context).wf(),
        final(funcs).wf(),
        check_seq(nodes_view(nodes@), 0, Seq::empty(), old(context)@, old(funcs)@) == (CheckedList {
            result: match r {
                Ok(ts) => Ok(ts@),
                Err(e) => Err(e),
            },
            env: final(context)@,
            funcs: final(funcs)@,
        }),
        r matches Ok(ts) ==> ts@.len() == nodes@.len(),
    decreases *nodes, 0nat,
{
    let ghost nv = nodes_view(nodes@);
    let ghost env0 = context@;
    let ghost funcs0 = funcs@;
    let mut out: Vec<Types> = Vec::new();
    let mut i: usize = 0;
    while i < nodes.len()
        invariant
            context.wf(),
            funcs.wf(),
            i <= nodes.len(),
            out@.len() == i,
            nv == nodes_view(nodes@),
            env0 == old(context)@,
            funcs0 == old(funcs)@,
            check_seq(nv, 0, Seq::empty(), env0, funcs0) == check_seq(
                nv,
                i as int,
                out@,
                context@,
                funcs@,
            ),
        decreases nodes.len() - i,
    {
        assert(nv[i as int] == nodes@[i as int]@);
        let ghost env_i = context@;
        let ghost funcs_i = funcs@;
        let ghost acc = out@;
        match type_check(&nodes[i], context, funcs) {
            Ok(t) => {
                out.push(t);
                assert(check_seq(nv, i as int, acc, env_i, funcs_i) == check_seq(
                    nv,
                    i + 1,
                    out@,
                    context@,
                    funcs@,
                ));
            },
            Err(e) => {
                assert(check_seq(nv, i as int, acc, env_i, funcs_i) == (CheckedList {
                    result: Err(e),
                    env: context@,
                    funcs: funcs@,
                }));
                return Err(e);
            },
        }
        i += 1;
    }
    Ok(out)
}

/// Checks a binary expression.
pub fn type_check_op(
    node1: &Node,
    operation: &Opcode,
    node2: &Node,
    context: &mut Context,
    funcs: &mut FnContext,
) -> (r: Result<Types, TypeError>)
    requires
        old(context).wf(),
        old(funcs).wf(),
    ensures
        final(context).wf(),
        final(funcs).wf(),
        follows_rules(
            Ast::Op(Box::new(node1@), *operation, Box::new(node2@)),
            r,
            old(context)@,
            old(funcs)@,
            final(context)@,
            final(funcs)@,
        ),
    decreases Node::Op(Box::new(*node1), *operation, Box::new(*node2)), 0nat,
{
    proof {
        let n = Node::Op(Box::new(*node1), *operation, Box::new(*node2));
        assert(*n->Op_0 == *node1);
        assert(*n->Op_2 == *node2);
    }
    let left = match type_check(node1, context, funcs) {
        Ok(t) => t,
        Err(e) => {
            return Err(e);
        },
    };
    let right = match type_check(node2, context, funcs) {
        Ok(t) => t,
        Err(e) => {
            return Err(e);
        },
    };
    binary_result(operation, &left, &right)
}

/// Checks a unary expression.
pub fn type_check_unary_op(
    node: &Node,
    operation: &Opcode,
    context: &mut Context,
    funcs: &mut FnContext,
) -> (r: Result<Types, TypeError>)
    requires
        old(context).wf(),
        old(funcs).wf(),
    ensures
        final(context).wf(),
        final(funcs).wf(),
        follows_rules(
            Ast::UnaryOp(*operation, Box::new(node@)),
            r,
            old(context)@,
            old(funcs)@,
            final(context)@,
            final(funcs)@,
        ),
    decreases Node::UnaryOp(*operation, Box::new(*node)), 0nat,
{
    proof {
        let n = Node::UnaryOp(*operation, Box::new(*node));
        assert(*n->UnaryOp_1 == *node);
    }
    let t = match type_check(node, context, funcs) {
        Ok(t) => t,
        Err(e) => {
            return Err(e);
        },
    };
    let is_name = match node {
        Node::ID(_) => true,
        _ => false,
    };
    match operation {
        Opcode::UnarySub => {
            if t.get_type_id() == 2 {
                Ok(Types::Number)
            } else {
                Err(TypeError::TypeMismatch)
            }
        },
        Opcode::Not => {
            if t.get_type_id() == 1 {
                Ok(Types::Boolean)
            } else {
                Err(TypeError::TypeMismatch)
            }
        },
        Opcode::Ref => {
            if is_name {
                Ok(Types::Ref(Box::new(t)))
            } else {
                Err(TypeError::TypeMismatch)
            }
        },
        Opcode::MutRef => {
            if is_name {
                Ok(Types::MutRef(Box::new(t)))
            } else {
                Err(TypeError::TypeMismatch)
            }
        },
        Opcode::DeRef => match t {
            Types::Ref(inner) => Ok(*inner),
            Types::MutRef(inner) => Ok(*inner),
            _ => Err(TypeError::NotAReference),
        },
        _ => Err(TypeError::Malformed),
    }
}

/// Checks a `return`.
pub fn type_check_return(node: &Option<Box<Node>>, context: &mut Context, funcs: &mut FnContext) -> (r:
    Result<Types, TypeError>)
    requires
        old(context).wf(),
        old(funcs).wf(),
    ensures
        final(context).wf(),
        final(funcs).wf(),
        follows_rules(
            Ast::Return(
                match *node {
                    Some(e) => Some(Box::new(e@)),
                    None => None,
                },
            ),
            r,
            old(context)@,
            old(funcs)@,
            final(context)@,
            final(funcs)@,
        ),
    decreases Node::Return(*node), 0nat,
{
    proof {
        let n = Node::Return(*node);
        assert(n->Return_0 == *node);
    }
    match node {
        Some(e) => type_check(e, context, funcs),
        None => Ok(Types::UnitType),
    }
}

/// Checks a declaration.
pub fn type_check_let(
    id: &String,
    mutable: &bool,
    typedef: &Option<String>,
    value: &Option<Box<Node>>,
    context: &mut Context,
    funcs: &mut FnContext,
) -> (r: Result<Types, TypeError>)
    requires
        old(context).wf(),
        old(funcs).wf(),
    ensures
        final(context).wf(),
        final(funcs).wf(),
        follows_rules(
            Ast::Declaration(
                id@,
                *mutable,
                opt_str_view(*typedef),
                match *value {
                    Some(e) => Some(Box::new(e@)),
                    None => None,
                },
            ),
            r,
            old(context)@,
            old(funcs)@,
            final(context)@,
            final(funcs)@,
        ),
    decreases Node::Declaration(*id, *mutable, *typedef, *value), 0nat,
{
    proof {
        let n = Node::Declaration(*id, *mutable, *typedef, *value);
        assert(n->Declaration_3 == *value);
    }
    let declared = match typedef {
        None => Some(Types::Unknown),
        Some(s) => read_annotation(s),
    };
    let left = match declared {
        Some(t) => t,
        None => {
            return Err(TypeError::Malformed);
        },
    };
    match value {
        None => {
            context.insert(id, &left, mutable);
            Ok(left)
        },
        Some(e) => {
            let right = match type_check(e, context, funcs) {
                Ok(t) => t,
                Err(e) => {
                    return Err(e);
                },
            };
            if left.get_type_id() == 0 || left.same(&right) {
                context.insert(id, &right, mutable);
                Ok(right)
            } else {
                Err(TypeError::TypeMismatch)
            }
        },
    }
}

/// Checks an assignment to a variable.
pub fn type_check_assign(name: &String, value: &Node, context: &mut Context, funcs: &mut FnContext) -> (r:
    Result<Types, TypeError>)
    requires
        old(context).wf(),
        old(funcs).wf(),
    ensures
        final(context).wf(),
        final(funcs).wf(),
        follows_rules(
            Ast::Assign(name@, Box::new(value@)),
            r,
            old(context)@,
            old(funcs)@,
            final(context)@,
            final(funcs)@,
        ),
    decreases Node::Assign(*name, Box::new(*value)), 0nat,
{
    proof {
        let n = Node::Assign(*name, Box::new(*value));
        assert(*n->Assign_1 == *value);
    }
    let left = match context.get(name) {
        Some(v) => v,
        None => {
            return Err(TypeError::UnboundName);
        },
    };
    if !left.mutable {
        return Err(TypeError::ImmutableTarget);
    }
    let right = match type_check(value, context, funcs) {
        Ok(t) => t,
        Err(e) => {
            return Err(e);
        },
    };
    if left.t.get_type_id() == 0 || left.t.same(&right) {
        Ok(right)
    } else {
        Err(TypeError::TypeMismatch)
    }
}

/// Checks a write through an exclusive reference.
pub fn type_check_write_ref(
    op: &Opcode,
    id: &String,
    node: &Node,
    context: &mut Context,
    funcs: &mut FnContext,
) -> (r: Result<Types, TypeError>)
    requires
        old(context).wf(),
        old(funcs).wf(),
    ensures
        final(context).wf(),
        final(funcs).wf(),
        follows_rules(
            Ast::WriteByRef(*op, id@, Box::new(node@)),
            r,
            old(context)@,
            old(funcs)@,
            final(context)@,
            final(funcs)@,
        ),
    decreases Node::WriteByRef(*op, *id, Box::new(*node)), 0nat,
{
    proof {
        let n = Node::WriteByRef(*op, *id, Box::new(*node));
        assert(*n->WriteByRef_2 == *node);
    }
    match op {
        Opcode::DeRef => {},
        _ => {
            return Err(TypeError::InvalidAssignTarget);
        },
    }
    let var = match context.get(id) {
        Some(v) => v,
        None => {
            return Err(TypeError::UnboundName);
        },
    };
    match var.t {
        Types::MutRef(inner) => {
            let right = match type_check(node, context, funcs) {
                Ok(t) => t,
                Err(e) => {
                    return Err(e);
                },
            };
            if inner.same(&right) {
                Ok(Types::Unknown)
            } else {
                Err(TypeError::TypeMismatch)
            }
        },
        _ => Err(TypeError::InvalidAssignTarget),
    }
}

/// The type of a block, given the types of its statements.
fn block_result(stmts: &Vec<Box<Node>>, ts: &Vec<Types>) -> (r: Types)
    ensures
        r == block_type(nodes_view(stmts@), ts@),
{
    let n = stmts.len();
    if n > 0 && ts.len() == n {
        assert(nodes_view(stmts@).last() == stmts@[n - 1]@);
        match &*stmts[n - 1] {
            Node::BlockValue(_) => ts[n - 1].copy(),
            _ => Types::UnitType,
        }
    } else {
        Types::UnitType
    }
}

/// Checks the statements of a block in a scope of its own.
fn check_scope(stmts: &Vec<Box<Node>>, context: &mut Context, funcs: &mut FnContext) -> (r: Result<
    Types,
    TypeError,
>)
    requires
        old(context).wf(),
        old(funcs).wf(),
    ensures
        final(context).wf(),
        final(funcs).wf(),
        check_block(nodes_view(stmts@), old(context)@, old(funcs)@) == (Checked {
            result: r,
            env: final(context)@,
            funcs: final(funcs)@,
        }),
    decreases *stmts, 1nat,
{
    context.add_scope();
    let checked = check_list(stmts, context, funcs);
    context.remove_scope();
    match checked {
        Ok(ts) => Ok(block_result(stmts, &ts)),
        Err(e) => Err(e),
    }
}

/// Checks a `while` loop.
pub fn type_check_while(
    condition: &Node,
    instr: &Vec<Box<Node>>,
    context: &mut Context,
    funcs: &mut FnContext,
) -> (r: Result<Types, TypeError>)
    requires
        old(context).wf(),
        old(funcs).wf(),
    ensures
        final(context).wf(),
        final(funcs).wf(),
        follows_rules(
            Ast::While(Box::new(condition@), nodes_view(instr@)),
            r,
            old(context)@,
            old(funcs)@,
            final(context)@,
            final(funcs)@,
        ),
    decreases Node::While(Box::new(*condition), *instr), 0nat,
{
    proof {
        let n = Node::While(Box::new(*condition), *instr);
        assert(*n->While_0 == *condition);
        assert(n->While_1 == *instr);
    }
    let t = match type_check(condition, context, funcs) {
        Ok(t) => t,
        Err(e) => {
            return Err(e);
        },
    };
    if t.get_type_id() != 1 {
        return Err(TypeError::NotABoolean);
    }
    match check_scope(instr, context, funcs) {
        Ok(_) => Ok(Types::UnitType),
        Err(e) => Err(e),
    }
}

/// Checks an `if` without `else`.
pub fn type_check_if(
    condition: &Node,
    instr: &Vec<Box<Node>>,
    context: &mut Context,
    funcs: &mut FnContext,
) -> (r: Result<Types, TypeError>)
    requires
        old(context).wf(),
        old(funcs).wf(),
    ensures
        final(context).wf(),
        final(funcs).wf(),
        follows_rules(
            Ast::IfStmt(Box::new(condition@), nodes_view(instr@)),
            r,
            old(context)@,
            old(funcs)@,
            final(context)@,
            final(funcs)@,
        ),
    decreases Node::IfStmt(Box::new(*condition), *instr), 0nat,
{
    proof {
        let n = Node::IfStmt(Box::new(*condition), *instr);
        assert(*n->IfStmt_0 == *condition);
        assert(n->IfStmt_1 == *instr);
    }
    let t = match type_check(condition, context, funcs) {
        Ok(t) => t,
        Err(e) => {
            return Err(e);
        },
    };
    if t.get_type_id() != 1 {
        return Err(TypeError::NotABoolean);
    }
    check_scope(instr, context, funcs)
}

/// Checks an `if` with `else`.
pub fn type_check_if_else(
    condition: &Node,
    if_instr: &Vec<Box<Node>>,
    else_instr: &Vec<Box<Node>>,
    context: &mut Context,
    funcs: &mut FnContext,
) -> (r: Result<Types, TypeError>)
    requires
        old(context).wf(),
        old(funcs).wf(),
    ensures
        final(context).wf(),
        final(funcs).wf(),
        follows_rules(
            Ast::IfElse(Box::new(condition@), nodes_view(if_instr@), nodes_view(else_instr@)),
            r,
            old(context)@,
            old(funcs)@,
            final(context)@,
            final(funcs)@,
        ),
    decreases Node::IfElse(Box::new(*condition), *if_instr, *else_instr), 0nat,
{
    proof {
        let n = Node::IfElse(Box::new(*condition), *if_instr, *else_instr);
        assert(*n->IfElse_0 == *condition);
        assert(n->IfElse_1 == *if_instr);
        assert(n->IfElse_2 == *else_instr);
    }
    let t = match type_check(condition, context, funcs) {
        Ok(t) => t,
        Err(e) => {
            return Err(e);
        },
    };
    if t.get_type_id() != 1 {
        return Err(TypeError::NotABoolean);
    }
    let first = match check_scope(if_instr, context, funcs) {
        Ok(t) => t,
        Err(e) => {
            return Err(e);
        },
    };
    let second = match check_scope(else_instr, context, funcs) {
        Ok(t) => t,
        Err(e) => {
            return Err(e);
        },
    };
    if first.same(&second) {
        Ok(first)
    } else {
        Err(TypeError::BranchTypeMismatch)
    }
}

/// Whether the arguments' types agree with the parameters', one by one.
fn types_agree(ts: &Vec<Types>, ps: &Vec<Types>) -> (r: bool)
    ensures
        r == args_agree(ts@, ps@),
{
    if ts.len() != ps.len() {
        return false;
    }
    let mut i: usize = 0;
    while i < ts.len()
        invariant
            ts.len() == ps.len(),
            i <= ts.len(),
            forall|j: int| 0 <= j < i ==> (#[trigger] ts@[j]).agrees(ps@[j]),
        decreases ts.len() - i,
    {
        if !ts[i].same(&ps[i]) {
            return false;
        }
        i += 1;
    }
    true
}

/// The type of a call of `name` with arguments of the types `ts`.
fn call_result(funcs: &FnContext, name: &String, ts: &Vec<Types>) -> (r: Result<Types, TypeError>)
    requires
        funcs.wf(),
    ensures
        r == call_type(funcs@, name@, ts@),
{
    match funcs.fn_env.get(name) {
        None => Err(TypeError::UnknownFunction),
        Some(info) => {
            if types_agree(ts, &info.params) {
                Ok(info.ret.copy())
            } else {
                Err(TypeError::ArityOrTypeMismatch)
            }
        },
    }
}

/// Checks a call.
pub fn type_check_call(
    id: &String,
    params: &Vec<Box<Node>>,
    context: &mut Context,
    funcs: &mut FnContext,
) -> (r: Result<Types, TypeError>)
    requires
        old(context).wf(),
        old(funcs).wf(),
    ensures
        final(context).wf(),
        final(funcs).wf(),
        follows_rules(
            Ast::Call(id@, nodes_view(params@)),
            r,
            old(context)@,
            old(funcs)@,
            final(context)@,
            final(funcs)@,
        ),
    decreases Node::Call(*id, *params), 0nat,
{
    proof {
        let n = Node::Call(*id, *params);
        assert(n->Call_1 == *params);
    }
    if !funcs.fn_env.contains_key(id) {
        return Err(TypeError::UnknownFunction);
    }
    let ts = match check_list(params, context, funcs) {
        Ok(ts) => ts,
        Err(e) => {
            return Err(e);
        },
    };
    call_result(funcs, id, &ts)
}

/// Reads the types of a list of parameter definitions.
fn read_params(params: &Vec<Box<Node>>) -> (r: Option<Vec<Types>>)
    ensures
        r is Some <==> params_ok(nodes_view(params@)),
        r matches Some(ts) ==> ts@ == param_types(nodes_view(params@)),
{
    let ghost pv = nodes_view(params@);
    let mut out: Vec<Types> = Vec::new();
    let mut i: usize = 0;
    while i < params.len()
        invariant
            i <= params.len(),
            pv == nodes_view(params@),
            out@.len() == i,
            forall|j: int|
                0 <= j < i ==> (#[trigger] pv[j] matches Ast::ParamDef(_, ann) && param_type(ann) is Some),
            forall|j: int| 0 <= j < i ==> out@[j] == param_type_of(#[trigger] pv[j]),
        decreases params.len() - i,
    {
        assert(pv[i as int] == params@[i as int]@);
        match &*params[i] {
            Node::ParamDef(_, ann) => match type_check_param_def(ann) {
                Ok(t) => {
                    out.push(t);
                },
                Err(_) => {
                    return None;
                },
            },
            _ => {
                return None;
            },
        }
        i += 1;
    }
    assert(out@ =~= param_types(pv));
    Some(out)
}

/// Binds the parameters of a function in a fresh environment.
fn bind_all(params: &Vec<Box<Node>>, types: &Vec<Types>) -> (c: Context)
    requires
        params_ok(nodes_view(params@)),
        types@ == param_types(nodes_view(params@)),
    ensures
        c.wf(),
        c@ == bind_params(nodes_view(params@), params@.len() as int),
{
    let ghost pv = nodes_view(params@);
    let mut local = Context::new();
    let mut i: usize = 0;
    while i < params.len()
        invariant
            i <= params.len(),
            pv == nodes_view(params@),
            params_ok(pv),
            types@ == param_types(pv),
            local.wf(),
            local@ == bind_params(pv, i as int),
        decreases params.len() - i,
    {
        assert(pv[i as int] == params@[i as int]@);
        assert(pv[i as int] is ParamDef);
        assert(types@[i as int] == param_type_of(pv[i as int]));
        match &*params[i] {
            Node::ParamDef(name, _) => {
                assert(name@ == param_name_of(pv[i as int]));
                local.insert(name, &types[i], &true);
            },
            _ => {},
        }
        i += 1;
    }
    local
}

/// Whether statement `k` yields the function's result.
fn yields(body: &Vec<Box<Node>>, k: usize) -> (r: bool)
    requires
        k < body.len(),
    ensures
        r == yields_result(nodes_view(body@), k as int),
{
    assert(nodes_view(body@)[k as int] == body@[k as int]@);
    match &*body[k] {
        Node::Return(_) => true,
        Node::BlockValue(_) => true,
        Node::IfElse(_, _, _) => k == body.len() - 1,
        _ => false,
    }
}

/// The type that a function body yields, given the types of its statements.
fn body_result(body: &Vec<Box<Node>>, ts: &Vec<Types>) -> (r: Result<Types, TypeError>)
    requires
        ts.len() == body.len(),
    ensures
        r == body_type(nodes_view(body@), ts@),
{
    let ghost bv = nodes_view(body@);
    let mut last: Option<usize> = None;
    let mut i: usize = 0;
    while i < body.len()
        invariant
            i <= body.len(),
            bv == nodes_view(body@),
            match last {
                Some(k) => k < i && last_result(bv, i as int) == Some(k as int),
                None => last_result(bv, i as int) is None,
            },
        decreases body.len() - i,
    {
        if yields(body, i) {
            last = Some(i);
        }
        i += 1;
    }
    match last {
        None => Ok(Types::UnitType),
        Some(l) => {
            let mut k: usize = 0;
            while k < body.len()
                invariant
                    k <= body.len(),
                    l < body.len(),
                    ts.len() == body.len(),
                    bv == nodes_view(body@),
                    last_result(bv, body.len() as int) == Some(l as int),
                    forall|j: int|
                        0 <= j < k && yields_result(bv, j) ==> (#[trigger] ts@[j]).agrees(ts@[l as int]),
                decreases body.len() - k,
            {
                if yields(body, k) && !ts[k].same(&ts[l]) {
                    assert(yields_result(bv, k as int) && !ts@[k as int].agrees(ts@[l as int]));
                    return Err(TypeError::ReturnTypeMismatch);
                }
                k += 1;
            }
            Ok(ts[l].copy())
        },
    }
}

/// The return type of a function that declares `declared` and whose body
/// yields `found`.
fn settle(declared: Types, found: Types) -> (r: Result<Types, TypeError>)
    ensures
        r == settle_return(declared, found),
{
    if declared.get_type_id() == 0 {
        Ok(found)
    } else if declared.same(&found) {
        Ok(declared)
    } else {
        Err(TypeError::ReturnTypeMismatch)
    }
}

/// Checks a function definition and, on success, registers its signature.
pub fn type_check_fn_def(
    id: &String,
    params: &Vec<Box<Node>>,
    rtype: &Option<String>,
    instr: &Vec<Box<Node>>,
    funcs: &mut FnContext,
) -> (r: Result<Types, TypeError>)
    requires
        old(funcs).wf(),
    ensures
        final(funcs).wf(),
        check_def(
            id@,
            nodes_view(params@),
            opt_str_view(*rtype),
            nodes_view(instr@),
            old(funcs)@,
        ) == (CheckedDef { result: r, funcs: final(funcs)@ }),
    decreases Node::FnDef(*id, *params, *rtype, *instr), 0nat,
{
    proof {
        let n = Node::FnDef(*id, *params, *rtype, *instr);
        assert(n->FnDef_3 == *instr);
    }
    let declared = match read_return(rtype) {
        Some(t) => t,
        None => {
            return Err(TypeError::Malformed);
        },
    };
    let types = match read_params(params) {
        Some(ts) => ts,
        None => {
            return Err(TypeError::Malformed);
        },
    };
    let mut local = bind_all(params, &types);
    let ts = match check_list(instr, &mut local, funcs) {
        Ok(ts) => ts,
        Err(e) => {
            return Err(e);
        },
    };
    let found = match body_result(instr, &ts) {
        Ok(t) => t,
        Err(e) => {
            return Err(e);
        },
    };
    let t = match settle(declared, found) {
        Ok(t) => t,
        Err(e) => {
            return Err(e);
        },
    };
    funcs.register(id, t.copy(), types);
    Ok(t)
}

/// Registers the declared signature of every function of a program.
fn register_defs(functions: &Vec<Box<Node>>) -> (r: Option<FnContext>)
    ensures
        r is Some <==> defs_ok(nodes_view(functions@)),
        r matches Some(f) ==> f.wf() && f@ == register_all(
            nodes_view(functions@),
            functions@.len() as int,
        ),
{
    let ghost fv = nodes_view(functions@);
    let mut table = FnContext::new();
    let mut i: usize = 0;
    while i < functions.len()
        invariant
            i <= functions.len(),
            fv == nodes_view(functions@),
            table.wf(),
            table@ == register_all(fv, i as int),
            forall|j: int|
                0 <= j < i ==> (#[trigger] fv[j] matches Ast::FnDef(_, params, ret, _) && params_ok(
                    params,
                ) && return_type(ret) is Some),
        decreases functions.len() - i,
    {
        assert(fv[i as int] == functions@[i as int]@);
        match &*functions[i] {
            Node::FnDef(name, params, ret, _) => {
                let declared = match read_return(ret) {
                    Some(t) => t,
                    None => {
                        return None;
                    },
                };
                let types = match read_params(params) {
                    Some(ts) => ts,
                    None => {
                        return None;
                    },
                };
                table.register(name, declared, types);
            },
            _ => {
                return None;
            },
        }
        i += 1;
    }
    Some(table)
}

/// Checks a whole program and yields the type of its entry point `main`.
pub fn type_check_program(functions: &Vec<Box<Node>>) -> (r: Result<Types, TypeError>)
    ensures
        r == check_program(nodes_view(functions@)),
    decreases Node::Program(*functions), 0nat,
{
    proof {
        let n = Node::Program(*functions);
        assert(n->Program_0 == *functions);
    }
    let mut table = match register_defs(functions) {
        Some(t) => t,
        None => {
            return Err(TypeError::Malformed);
        },
    };
    let mut context = Context::new();
    match check_list(functions, &mut context, &mut table) {
        Ok(_) => {},
        Err(e) => {
            return Err(e);
        },
    }
    let no_args: Vec<Types> = Vec::new();
    call_result(&table, &"main".to_owned(), &no_args)
}

/// Checks one node of the syntax tree against the environment and the
/// function table.
pub fn type_check(node: &Node, context: &mut Context, funcs: &mut FnContext) -> (r: Result<
    Types,
    TypeError,
>)
    requires
        old(context).wf(),
        old(funcs).wf(),
    ensures
        final(context).wf(),
        final(funcs).wf(),
        follows_rules(node@, r, old(context)@, old(funcs)@, final(context)@, final(funcs)@),
    decreases *node, 1nat,
{
    match node {
        Node::Number(_) => Ok(Types::Number),
        Node::Boolean(_) => Ok(Types::Boolean),
        Node::ID(s) => match context.get(s) {
            Some(v) => Ok(v.t),
            None => Err(TypeError::UnboundName),
        },
        Node::Op(l, o, r) => type_check_op(l, o, r, context, funcs),
        Node::UnaryOp(o, e) => type_check_unary_op(e, o, context, funcs),
        Node::Return(o) => type_check_return(o, context, funcs),
        Node::BlockValue(e) => type_check(e, context, funcs),
        Node::ParamDef(_, s) => type_check_param_def(s),
        Node::Type(_) => Err(TypeError::Malformed),
        Node::Declaration(name, m, typedef, value) => type_check_let(
            name,
            m,
            typedef,
            value,
            context,
            funcs,
        ),
        Node::Assign(s, e) => type_check_assign(s, e, context, funcs),
        Node::WriteByRef(o, s, e) => type_check_write_ref(o, s, e, context, funcs),
        Node::While(c, body) => type_check_while(c, body, context, funcs),
        Node::IfStmt(c, body) => type_check_if(c, body, context, funcs),
        Node::IfElse(c, a, b) => type_check_if_else(c, a, b, context, funcs),
        Node::Call(s, args) => type_check_call(s, args, context, funcs),
        Node::FnDef(name, params, ret, body) => type_check_fn_def(name, params, ret, body, funcs),
        Node::Program(fns) => type_check_program(fns),
    }
}

} // verus!
