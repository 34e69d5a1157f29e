//! The evaluator: a recursive descent over the syntax tree that yields a
//! value or the first runtime fault, and is proved to follow the evaluation
//! rules.

use vstd::prelude::*;
use vstd::string::StringExecFns;
use crate::ast::{copy_nodes, is_text, nodes_view, Ast, Node, Opcode};
use crate::ledger::{Slot, SlotView};
use crate::scope::{env_lookup, env_pop, env_push, ScopeStack};
use crate::semantics::{
    all_params, bind_reference, bind_references, bind_values, define_all, enter, env_borrow,
    ledger_name, env_deref, env_insert, env_release, env_update, env_write_target, eval, eval_args,
    eval_block, eval_call, eval_loop, eval_seq, param_mode, run_program, Activation, Bound,
    Evaluated, EvaluatedList, FnBody,
};
use crate::table::Table;
use crate::values::{apply_binary, apply_negation, RuntimeError};
pub use crate::values::Value;

verus! {

/// A function definition as the evaluator keeps it.
pub struct FnInfo {
    params: Vec<Box<Node>>,
    instructions: Vec<Box<Node>>,
}

impl View for FnInfo {
    type V = FnBody;

    closed spec fn view(&self) -> FnBody {
        FnBody { params: nodes_view(self.params@), body: nodes_view(self.instructions@) }
    }
}

/// The evaluator's function table: the definition of each function.
pub struct FnContext {
    fn_env: Table<FnInfo>,
}

/// The state of one function activation: the values and borrows of the
/// visible variables, scope by scope, and the value of the `return` that is
/// ending the activation, if one was met.
pub struct VarContext {
    var_env: ScopeStack<Slot>,
    returned: Option<Value>,
}

impl FnContext {
    pub closed spec fn wf(&self) -> bool {
        self.fn_env.wf()
    }

    /// The registered definitions by function name.
    pub closed spec fn view(&self) -> Map<Seq<char>, FnBody> {
        self.fn_env@
    }
}

impl VarContext {
    pub closed spec fn wf(&self) -> bool {
        self.var_env.wf()
    }

    /// The activation as a mathematical value.
    pub closed spec fn view(&self) -> Activation {
        Activation { scopes: self.var_env@, returned: self.returned }
    }

    /// The value of the `return` that is ending the activation.
    pub fn returned(&self) -> (r: Option<Value>)
        ensures
            r == self@.returned,
    {
        self.returned
    }

    /// Records that `borrow_name` borrowed the variable `id`.
    pub fn insert_borrow(&mut self, borrow_name: &String, id: &String, is_mut: bool)
        requires
            old(self).wf(),
        ensures
            final(self).wf(),
            final(self)@ == (Activation {
                scopes: env_borrow(old(self)@.scopes, borrow_name@, id@, is_mut),
                ..old(self)@
            }),
    {
        self.var_env.declare(borrow_name.clone(), Slot::reference(id));
        let found = match self.var_env.lookup(id) {
            Some(s) => Some(s.copy()),
            None => None,
        };
        match found {
            Some(mut s) => {
                s.add_borrow(borrow_name, is_mut);
                self.var_env.assign(id, s);
            },
            None => {},
        }
    }

    /// Drops the most recent exclusive borrow of the variable `id`.
    pub fn remove_mut_borrow(&mut self, id: &String)
        requires
            old(self).wf(),
        ensures
            final(self).wf(),
            final(self)@ == (Activation {
                scopes: env_release(old(self)@.scopes, id@),
                ..old(self)@
            }),
    {
        let found = match self.var_env.lookup(id) {
            Some(s) => Some(s.copy()),
            None => None,
        };
        match found {
            Some(mut s) => {
                s.release();
                self.var_env.assign(id, s);
            },
            None => {},
        }
    }

    /// Gives the variable `id` the value `v`, where it is declared.
    pub fn update(&mut self, id: &String, v: &Value)
        requires
            old(self).wf(),
        ensures
            final(self).wf(),
            final(self)@ == (Activation {
                scopes: env_update(old(self)@.scopes, id@, *v),
                ..old(self)@
            }),
    {
        let found = match self.var_env.lookup(id) {
            Some(s) => Some(s.copy()),
            None => None,
        };
        match found {
            Some(mut s) => {
                s.value = *v;
                self.var_env.assign(id, s);
            },
            None => {},
        }
    }

    /// The binding that `id` resolves to.
    pub fn get(&self, id: &String) -> (r: Option<Slot>)
        requires
            self.wf(),
        ensures
            r is Some <==> env_lookup(self@.scopes, id@) is Some,
            r matches Some(s) ==> Some(s@) == env_lookup(self@.scopes, id@),
    {
        match self.var_env.lookup(id) {
            Some(s) => Some(s.copy()),
            None => None,
        }
    }

    /// Declares `id` in the innermost scope with the value `v`.
    pub fn insert(&mut self, id: &String, v: &Value)
        requires
            old(self).wf(),
        ensures
            final(self).wf(),
            final(self)@ == (Activation {
                scopes: env_insert(old(self)@.scopes, id@, *v),
                ..old(self)@
            }),
    {
        self.var_env.declare(id.clone(), Slot::plain(*v));
    }

    /// Enters a block.
    pub fn add_scope(&mut self)
        requires
            old(self).wf(),
        ensures
            final(self).wf(),
            final(self)@ == (Activation { scopes: env_push(old(self)@.scopes), ..old(self)@ }),
    {
        self.var_env.push_scope();
    }

    /// Leaves a block.
    pub fn remove_scope(&mut self)
        requires
            old(self).wf(),
        ensures
            final(self).wf(),
            final(self)@ == (Activation { scopes: env_pop(old(self)@.scopes), ..old(self)@ }),
    {
        self.var_env.pop_scope();
    }

    /// The value read through the reference `name`.
    pub fn deref(&self, name: &String) -> (r: Result<Value, RuntimeError>)
        requires
            self.wf(),
        ensures
            r == env_deref(self@.scopes, name@),
    {
        let reference = match self.var_env.lookup(name) {
            Some(s) => s,
            None => {
                return Err(RuntimeError::UnboundName);
            },
        };
        let target = match &reference.borrow_of {
            Some(t) => t,
            None => {
                return Err(RuntimeError::DanglingReference);
            },
        };
        let slot = match self.var_env.lookup(target) {
            Some(s) => s,
            None => {
                return Err(RuntimeError::UnboundName);
            },
        };
        match slot.check_read(name) {
            Ok(_) => Ok(slot.value),
            Err(e) => Err(e),
        }
    }

    /// The variable that a write through the reference `name` changes.
    pub fn write_target(&self, name: &String) -> (r: Result<String, RuntimeError>)
        requires
            self.wf(),
        ensures
            match r {
                Ok(t) => env_write_target(self@.scopes, name@) == Ok::<Seq<char>, RuntimeError>(t@),
                Err(e) => env_write_target(self@.scopes, name@) == Err::<Seq<char>, RuntimeError>(e),
            },
    {
        let reference = match self.var_env.lookup(name) {
            Some(s) => s,
            None => {
                return Err(RuntimeError::UnboundName);
            },
        };
        let target = match &reference.borrow_of {
            Some(t) => t,
            None => {
                return Err(RuntimeError::DanglingReference);
            },
        };
        let slot = match self.var_env.lookup(target) {
            Some(s) => s,
            None => {
                return Err(RuntimeError::UnboundName);
            },
        };
        if slot.check_write(name) {
            Ok(target.clone())
        } else {
            Err(RuntimeError::WriteRejected)
        }
    }
}

/// An activation without scopes.
pub fn interp_context() -> (c: VarContext)
    ensures
        c.wf(),
        c@ == (Activation { scopes: Seq::empty(), returned: None }),
{
    VarContext { var_env: ScopeStack::new(), returned: None }
}

/// A function table without functions.
pub fn interp_fn_context() -> (f: FnContext)
    ensures
        f.wf(),
        f@ == Map::<Seq<char>, FnBody>::empty(),
{
    FnContext { fn_env: Table::new() }
}

/// Registers a function definition under `fn_name`, replacing an earlier
/// one of that name.
pub fn func_definition(
    fn_name: &String,
    params: &Vec<Box<Node>>,
    instructions: &Vec<Box<Node>>,
    funcs: &mut FnContext,
)
    requires
        old(funcs).wf(),
    ensures
        final(funcs).wf(),
        final(funcs)@ == old(funcs)@.insert(
            fn_name@,
            FnBody { params: nodes_view(params@), body: nodes_view(instructions@) },
        ),
{
    let info = FnInfo { params: copy_nodes(params), instructions: copy_nodes(instructions) };
    funcs.fn_env.insert(fn_name.clone(), info);
}

/// The name of a parameter definition.
pub fn get_param_name(node: &Node) -> (r: Option<String>)
    ensures
        match r {
            Some(s) => node@ matches Ast::ParamDef(name, _) && name == s@,
            None => !(node@ is ParamDef),
        },
{
    match node {
        Node::ParamDef(name, _) => Some(name.clone()),
        _ => None,
    }
}

/// Whether `r` and the state after an evaluation are what the evaluation
/// rules give for `node` in the state before it.
pub open spec fn follows_rules(
    node: Ast,
    r: Result<Value, RuntimeError>,
    act0: Activation,
    funcs0: Map<Seq<char>, FnBody>,
    act1: Activation,
    funcs1: Map<Seq<char>, FnBody>,
    fuel: nat,
) -> bool {
    eval(node, act0, funcs0, fuel) == (Evaluated { result: r, act: act1, funcs: funcs1 })
}

/// A declaration is executed without regard to its mutability and its
/// annotation.
pub proof fn lemma_let_ignores_annotation(
    node: Ast,
    act: Activation,
    funcs: Map<Seq<char>, FnBody>,
    fuel: nat,
)
    requires
        node is Declaration,
    ensures
        eval(node, act, funcs, fuel) == eval(
            Ast::Declaration(node->Declaration_0, false, None, node->Declaration_3),
            act,
            funcs,
            fuel,
        ),
{
}

/// A write through a reference is executed without regard to the operator
/// that the node carries.
pub proof fn lemma_write_ignores_operator(
    node: Ast,
    act: Activation,
    funcs: Map<Seq<char>, FnBody>,
    fuel: nat,
)
    requires
        node is WriteByRef,
    ensures
        eval(node, act, funcs, fuel) == eval(
            Ast::WriteByRef(Opcode::DeRef, node->WriteByRef_1, node->WriteByRef_2),
            act,
            funcs,
            fuel,
        ),
{
}

/// How a parameter with the annotation `ann` is passed.
fn read_mode(ann: &String) -> (r: Option<bool>)
    ensures
        r == param_mode(ann@),
{
    if is_text(ann, ": &i32") || is_text(ann, ": &bool") {
        Some(false)
    } else if is_text(ann, ": &mut i32") || is_text(ann, ": &mut bool") {
        Some(true)
    } else {
        None
    }
}

/// Evaluates the arguments of a call from left to right.
fn eval_list(args: &Vec<Box<Node>>, vars: &mut VarContext, funcs: &mut FnContext, fuel: usize) -> (r:
    Result<Vec<Value>, RuntimeError>)
    requires
        old(vars).wf(),
        old(funcs).wf(),
    ensures
        final(vars).wf(),
        final(funcs).wf(),
        eval_args(nodes_view(args@), 0, Seq::empty(), old(vars)@, old(funcs)@, fuel as nat) == (
        EvaluatedList {
            result: match r {
                Ok(vs) => Ok(vs@),
                Err(e) => Err(e),
            },
            act: final(vars)@,
            funcs: final(funcs)@,
        }),
        r matches Ok(vs) ==> vs@.len() == args@.len(),
    decreases fuel, *args, 0nat,
{
    let ghost av = nodes_view(args@);
    let ghost act0 = vars@;
    let ghost funcs0 = funcs@;
    let mut out: Vec<Value> = Vec::new();
    let mut i: usize = 0;
    while i < args.len()
        invariant
            vars.wf(),
            funcs.wf(),
            i <= args.len(),
            out@.len() == i,
            av == nodes_view(args@),
            act0 == old(vars)@,
            funcs0 == old(funcs)@,
            eval_args(av, 0, Seq::empty(), act0, funcs0, fuel as nat) == eval_args(
                av,
                i as int,
                out@,
                vars@,
                funcs@,
                fuel as nat,
            ),
        decreases args.len() - i,
    {
        assert(av[i as int] == args@[i as int]@);
        let ghost act_i = vars@;
        let ghost funcs_i = funcs@;
        let ghost acc = out@;
        match interpret(&args[i], vars, funcs, fuel) {
            Ok(v) => {
                out.push(v);
                assert(eval_args(av, i as int, acc, act_i, funcs_i, fuel as nat) == eval_args(
                    av,
                    i + 1,
                    out@,
                    vars@,
                    funcs@,
                    fuel as nat,
                ));
            },
            Err(e) => {
                assert(eval_args(av, i as int, acc, act_i, funcs_i, fuel as nat) == (EvaluatedList {
                    result: Err(e),
                    act: vars@,
                    funcs: funcs@,
                }));
                return Err(e);
            },
        }
        i += 1;
    }
    Ok(out)
}

/// Executes statements in order until one faults or a `return` was met,
/// and yields the value of the statement executed last.
fn run_seq(stmts: &Vec<Box<Node>>, vars: &mut VarContext, funcs: &mut FnContext, fuel: usize) -> (r:
    Result<Value, RuntimeError>)
    requires
        old(vars).wf(),
        old(funcs).wf(),
    ensures
        final(vars).wf(),
        final(funcs).wf(),
        eval_seq(nodes_view(stmts@), 0, Value::NoValue, old(vars)@, old(funcs)@, fuel as nat) == (
        Evaluated { result: r, act: final(vars)@, funcs: final(funcs)@ }),
    decreases fuel, *stmts, 0nat,
{
    let ghost sv = nodes_view(stmts@);
    let ghost act0 = vars@;
    let ghost funcs0 = funcs@;
    let mut last = Value::NoValue;
    let mut i: usize = 0;
    while i < stmts.len() && vars.returned.is_none()
        invariant
            vars.wf(),
            funcs.wf(),
            i <= stmts.len(),
            sv == nodes_view(stmts@),
            act0 == old(vars)@,
            funcs0 == old(funcs)@,
            eval_seq(sv, 0, Value::NoValue, act0, funcs0, fuel as nat) == eval_seq(
                sv,
                i as int,
                last,
                vars@,
                funcs@,
                fuel as nat,
            ),
        decreases stmts.len() - i,
    {
        assert(sv[i as int] == stmts@[i as int]@);
        let ghost act_i = vars@;
        let ghost funcs_i = funcs@;
        let ghost before = last;
        match interpret(&stmts[i], vars, funcs, fuel) {
            Ok(v) => {
                last = v;
                assert(eval_seq(sv, i as int, before, act_i, funcs_i, fuel as nat) == eval_seq(
                    sv,
                    i + 1,
                    last,
                    vars@,
                    funcs@,
                    fuel as nat,
                ));
            },
            Err(e) => {
                assert(eval_seq(sv, i as int, before, act_i, funcs_i, fuel as nat) == (Evaluated {
                    result: Err(e),
                    act: vars@,
                    funcs: funcs@,
                }));
                return Err(e);
            },
        }
        i += 1;
    }
    Ok(last)
}

/// Whether the last statement of a block is its trailing value.
fn ends_in_value(stmts: &Vec<Box<Node>>) -> (r: bool)
    ensures
        r == (stmts@.len() > 0 && nodes_view(stmts@).last() is BlockValue),
{
    let n = stmts.len();
    if n == 0 {
        return false;
    }
    assert(nodes_view(stmts@).last() == stmts@[n - 1]@);
    match &*stmts[n - 1] {
        Node::BlockValue(_) => true,
        _ => false,
    }
}

/// Whether the last statement of a function body gives the call's value.
fn ends_in_result(stmts: &Vec<Box<Node>>) -> (r: bool)
    ensures
        r == (stmts@.len() > 0 && (nodes_view(stmts@).last() is BlockValue || nodes_view(
            stmts@,
        ).last() is IfElse)),
{
    let n = stmts.len();
    if n == 0 {
        return false;
    }
    assert(nodes_view(stmts@).last() == stmts@[n - 1]@);
    match &*stmts[n - 1] {
        Node::BlockValue(_) => true,
        Node::IfElse(_, _, _) => true,
        _ => false,
    }
}

/// Executes a block in a scope of its own.
fn run_block(stmts: &Vec<Box<Node>>, vars: &mut VarContext, funcs: &mut FnContext, fuel: usize) -> (r:
    Result<Value, RuntimeError>)
    requires
        old(vars).wf(),
        old(funcs).wf(),
    ensures
        final(vars).wf(),
        final(funcs).wf(),
        eval_block(nodes_view(stmts@), old(vars)@, old(funcs)@, fuel as nat) == (Evaluated {
            result: r,
            act: final(vars)@,
            funcs: final(funcs)@,
        }),
    decreases fuel, *stmts, 1nat,
{
    vars.add_scope();
    let ran = run_seq(stmts, vars, funcs, fuel);
    vars.remove_scope();
    match ran {
        Err(e) => Err(e),
        Ok(last) => match vars.returned {
            Some(v) => Ok(v),
            None => if ends_in_value(stmts) {
                Ok(last)
            } else {
                Ok(Value::NoValue)
            },
        },
    }
}

/// Evaluates a binary expression.
pub fn interpret_op(
    node1: &Node,
    operation: &Opcode,
    node2: &Node,
    vars: &mut VarContext,
    funcs: &mut FnContext,
    fuel: usize,
) -> (r: Result<Value, RuntimeError>)
    requires
        old(vars).wf(),
        old(funcs).wf(),
    ensures
        final(vars).wf(),
        final(funcs).wf(),
        follows_rules(
            Ast::Op(Box::new(node1@), *operation, Box::new(node2@)),
            r,
            old(vars)@,
            old(funcs)@,
            final(vars)@,
            final(funcs)@,
            fuel as nat,
        ),
    decreases fuel, Node::Op(Box::new(*node1), *operation, Box::new(*node2)), 0nat,
{
    proof {
        let n = Node::Op(Box::new(*node1), *operation, Box::new(*node2));
        assert(*n->Op_0 == *node1);
        assert(*n->Op_2 == *node2);
    }
    let left = match interpret(node1, vars, funcs, fuel) {
        Ok(v) => v,
        Err(e) => {
            return Err(e);
        },
    };
    let right = match interpret(node2, vars, funcs, fuel) {
        Ok(v) => v,
        Err(e) => {
            return Err(e);
        },
    };
    apply_binary(operation, left, right)
}

/// Evaluates a unary expression.
pub fn interpret_unary_op(
    operation: &Opcode,
    node: &Node,
    vars: &mut VarContext,
    funcs: &mut FnContext,
    fuel: usize,
) -> (r: Result<Value, RuntimeError>)
    requires
        old(vars).wf(),
        old(funcs).wf(),
    ensures
        final(vars).wf(),
        final(funcs).wf(),
        follows_rules(
            Ast::UnaryOp(*operation, Box::new(node@)),
            r,
            old(vars)@,
            old(funcs)@,
            final(vars)@,
            final(funcs)@,
            fuel as nat,
        ),
    decreases fuel, *node, 3nat,
{
    match operation {
        Opcode::DeRef => match node {
            Node::ID(name) => vars.deref(name),
            _ => Err(RuntimeError::Malformed),
        },
        Opcode::Ref | Opcode::MutRef => match interpret(node, vars, funcs, fuel) {
            Ok(_) => Ok(Value::RefValue),
            Err(e) => Err(e),
        },
        Opcode::UnarySub | Opcode::Not => match interpret(node, vars, funcs, fuel) {
            Ok(v) => apply_negation(operation, v),
            Err(e) => Err(e),
        },
        _ => Err(RuntimeError::Malformed),
    }
}

/// Makes `id` a reference to the variable that the expression `node`, which
/// gave the reference marker, names.
fn create_reference(id: &String, node: &Node, vars: &mut VarContext) -> (r: Result<
    Value,
    RuntimeError,
>)
    requires
        old(vars).wf(),
    ensures
        final(vars).wf(),
        bind_reference(id@, node@, old(vars)@) == (Bound { result: r, act: final(vars)@ }),
{
    match node {
        Node::UnaryOp(op, inner) => {
            assert(node@ == Ast::UnaryOp(*op, Box::new(inner@)));
            let exclusive = match op {
                Opcode::Ref => false,
                Opcode::MutRef => true,
                _ => {
                    return Err(RuntimeError::DanglingReference);
                },
            };
            match &**inner {
                Node::ID(target) => {
                    assert(inner@ == Ast::ID(target@));
                    vars.insert_borrow(id, target, exclusive);
                    Ok(Value::NoValue)
                },
                _ => {
                    assert(!(inner@ is ID));
                    Err(RuntimeError::DanglingReference)
                },
            }
        },
        _ => Err(RuntimeError::DanglingReference),
    }
}

/// Executes a declaration.
pub fn interpret_let(
    id: &String,
    value: &Option<Box<Node>>,
    vars: &mut VarContext,
    funcs: &mut FnContext,
    fuel: usize,
) -> (r: Result<Value, RuntimeError>)
    requires
        old(vars).wf(),
        old(funcs).wf(),
    ensures
        final(vars).wf(),
        final(funcs).wf(),
        follows_rules(
            Ast::Declaration(
                id@,
                false,
                None,
                match *value {
                    Some(e) => Some(Box::new(e@)),
                    None => None,
                },
            ),
            r,
            old(vars)@,
            old(funcs)@,
            final(vars)@,
            final(funcs)@,
            fuel as nat,
        ),
    decreases fuel, *value, 3nat,
{
    match value {
        None => {
            vars.insert(id, &Value::NoValue);
            Ok(Value::NoValue)
        },
        Some(e) => {
            let v = match interpret(e, vars, funcs, fuel) {
                Ok(v) => v,
                Err(e) => {
                    return Err(e);
                },
            };
            match v {
                Value::RefValue => create_reference(id, e, vars),
                _ => {
                    vars.insert(id, &v);
                    Ok(Value::NoValue)
                },
            }
        },
    }
}

/// Executes an assignment to a variable.
pub fn interpret_assign(
    id: &String,
    value: &Node,
    vars: &mut VarContext,
    funcs: &mut FnContext,
    fuel: usize,
) -> (r: Result<Value, RuntimeError>)
    requires
        old(vars).wf(),
        old(funcs).wf(),
    ensures
        final(vars).wf(),
        final(funcs).wf(),
        follows_rules(
            Ast::Assign(id@, Box::new(value@)),
            r,
            old(vars)@,
            old(funcs)@,
            final(vars)@,
            final(funcs)@,
            fuel as nat,
        ),
    decreases fuel, *value, 3nat,
{
    let v = match interpret(value, vars, funcs, fuel) {
        Ok(v) => v,
        Err(e) => {
            return Err(e);
        },
    };
    match v {
        Value::RefValue => create_reference(id, value, vars),
        _ => {
            if vars.var_env.lookup(id).is_none() {
                return Err(RuntimeError::UnboundName);
            }
            vars.update(id, &v);
            vars.remove_mut_borrow(id);
            Ok(Value::NoValue)
        },
    }
}

/// Executes a write through an exclusive reference.
pub fn interpret_write_ref(
    name: &String,
    node: &Node,
    vars: &mut VarContext,
    funcs: &mut FnContext,
    fuel: usize,
) -> (r: Result<Value, RuntimeError>)
    requires
        old(vars).wf(),
        old(funcs).wf(),
    ensures
        final(vars).wf(),
        final(funcs).wf(),
        follows_rules(
            Ast::WriteByRef(Opcode::DeRef, name@, Box::new(node@)),
            r,
            old(vars)@,
            old(funcs)@,
            final(vars)@,
            final(funcs)@,
            fuel as nat,
        ),
    decreases fuel, *node, 3nat,
{
    let target = match vars.write_target(name) {
        Ok(t) => t,
        Err(e) => {
            return Err(e);
        },
    };
    let v = match interpret(node, vars, funcs, fuel) {
        Ok(v) => v,
        Err(e) => {
            return Err(e);
        },
    };
    vars.update(&target, &v);
    Ok(Value::NoValue)
}

/// Executes a `while` loop.
pub fn interpret_while(
    condition: &Node,
    instr: &Vec<Box<Node>>,
    vars: &mut VarContext,
    funcs: &mut FnContext,
    fuel: usize,
) -> (r: Result<Value, RuntimeError>)
    requires
        old(vars).wf(),
        old(funcs).wf(),
    ensures
        final(vars).wf(),
        final(funcs).wf(),
        follows_rules(
            Ast::While(Box::new(condition@), nodes_view(instr@)),
            r,
            old(vars)@,
            old(funcs)@,
            final(vars)@,
            final(funcs)@,
            fuel as nat,
        ),
    decreases fuel, Node::While(Box::new(*condition), *instr), 0nat,
{
    proof {
        let n = Node::While(Box::new(*condition), *instr);
        assert(*n->While_0 == *condition);
        assert(n->While_1 == *instr);
    }
    let ghost c = condition@;
    let ghost body = nodes_view(instr@);
    let ghost act0 = vars@;
    let ghost funcs0 = funcs@;
    let mut left = fuel;
    loop
        invariant
            vars.wf(),
            funcs.wf(),
            left <= fuel,
            c == condition@,
            body == nodes_view(instr@),
            act0 == old(vars)@,
            funcs0 == old(funcs)@,
            eval_loop(c, body, act0, funcs0, fuel as nat) == eval_loop(
                c,
                body,
                vars@,
                funcs@,
                left as nat,
            ),
        decreases left,
    {
        if left == 0 {
            return Err(RuntimeError::OutOfFuel);
        }
        proof {
            let n = Node::While(Box::new(*condition), *instr);
            assert(*n->While_0 == *condition);
            assert(n->While_1 == *instr);
        }
        let test = match interpret(condition, vars, funcs, left) {
            Ok(v) => v,
            Err(e) => {
                return Err(e);
            },
        };
        match test {
            Value::Boolean(true) => {
                match run_block(instr, vars, funcs, left) {
                    Ok(v) => {
                        if vars.returned.is_some() {
                            return Ok(v);
                        }
                    },
                    Err(e) => {
                        return Err(e);
                    },
                }
            },
            Value::Boolean(false) => {
                return Ok(Value::NoValue);
            },
            _ => {
                return Err(RuntimeError::TypeFault);
            },
        }
        left = left - 1;
    }
}

/// Executes an `if` without `else`.
pub fn interpret_if(
    condition: &Node,
    instr: &Vec<Box<Node>>,
    vars: &mut VarContext,
    funcs: &mut FnContext,
    fuel: usize,
) -> (r: Result<Value, RuntimeError>)
    requires
        old(vars).wf(),
        old(funcs).wf(),
    ensures
        final(vars).wf(),
        final(funcs).wf(),
        follows_rules(
            Ast::IfStmt(Box::new(condition@), nodes_view(instr@)),
            r,
            old(vars)@,
            old(funcs)@,
            final(vars)@,
            final(funcs)@,
            fuel as nat,
        ),
    decreases fuel, Node::IfStmt(Box::new(*condition), *instr), 0nat,
{
    proof {
        let n = Node::IfStmt(Box::new(*condition), *instr);
        assert(*n->IfStmt_0 == *condition);
        assert(n->IfStmt_1 == *instr);
    }
    let test = match interpret(condition, vars, funcs, fuel) {
        Ok(v) => v,
        Err(e) => {
            return Err(e);
        },
    };
    match test {
        Value::Boolean(true) => run_block(instr, vars, funcs, fuel),
        Value::Boolean(false) => Ok(Value::NoValue),
        _ => Err(RuntimeError::TypeFault),
    }
}

/// Executes an `if` with `else`.
pub fn interpret_if_else(
    condition: &Node,
    if_instr: &Vec<Box<Node>>,
    else_instr: &Vec<Box<Node>>,
    vars: &mut VarContext,
    funcs: &mut FnContext,
    fuel: usize,
) -> (r: Result<Value, RuntimeError>)
    requires
        old(vars).wf(),
        old(funcs).wf(),
    ensures
        final(vars).wf(),
        final(funcs).wf(),
        follows_rules(
            Ast::IfElse(Box::new(condition@), nodes_view(if_instr@), nodes_view(else_instr@)),
            r,
            old(vars)@,
            old(funcs)@,
            final(vars)@,
            final(funcs)@,
            fuel as nat,
        ),
    decreases fuel, Node::IfElse(Box::new(*condition), *if_instr, *else_instr), 0nat,
{
    proof {
        let n = Node::IfElse(Box::new(*condition), *if_instr, *else_instr);
        assert(*n->IfElse_0 == *condition);
        assert(n->IfElse_1 == *if_instr);
        assert(n->IfElse_2 == *else_instr);
    }
    let test = match interpret(condition, vars, funcs, fuel) {
        Ok(v) => v,
        Err(e) => {
            return Err(e);
        },
    };
    match test {
        Value::Boolean(true) => run_block(if_instr, vars, funcs, fuel),
        Value::Boolean(false) => run_block(else_instr, vars, funcs, fuel),
        _ => Err(RuntimeError::TypeFault),
    }
}

/// Executes a `return`.
pub fn interpret_return(
    node: &Option<Box<Node>>,
    vars: &mut VarContext,
    funcs: &mut FnContext,
    fuel: usize,
) -> (r: Result<Value, RuntimeError>)
    requires
        old(vars).wf(),
        old(funcs).wf(),
    ensures
        final(vars).wf(),
        final(funcs).wf(),
        follows_rules(
            Ast::Return(
                match *node {
                    Some(e) => Some(Box::new(e@)),
                    None => None,
                },
            ),
            r,
            old(vars)@,
            old(funcs)@,
            final(vars)@,
            final(funcs)@,
            fuel as nat,
        ),
    decreases fuel, *node, 3nat,
{
    let v = match node {
        None => Value::NoValue,
        Some(e) => match interpret(e, vars, funcs, fuel) {
            Ok(v) => v,
            Err(e) => {
                return Err(e);
            },
        },
    };
    if vars.returned.is_none() {
        vars.returned = Some(v);
    }
    Ok(v)
}

/// The name under which a callee keeps what a reference parameter refers to.
fn ledger_of(param: &String) -> (r: String)
    ensures
        r@ == ledger_name(param@),
{
    let mut r = String::new();
    r.append("*");
    r.append(param.as_str());
    assert(r@ =~= ledger_name(param@));
    r
}

/// Builds the activation in which a function body starts.
fn enter_call(
    params: &Vec<Box<Node>>,
    args: &Vec<Box<Node>>,
    values: &Vec<Value>,
    caller: &VarContext,
) -> (r: Result<VarContext, RuntimeError>)
    requires
        caller.wf(),
    ensures
        match r {
            Ok(c) => c.wf() && c@.returned is None && enter(
                nodes_view(params@),
                nodes_view(args@),
                values@,
                caller@.scopes,
            ) == Ok::<Seq<Map<Seq<char>, SlotView>>, RuntimeError>(c@.scopes),
            Err(e) => enter(nodes_view(params@), nodes_view(args@), values@, caller@.scopes) == Err::<
                Seq<Map<Seq<char>, SlotView>>,
                RuntimeError,
            >(e),
        },
{
    let ghost pv = nodes_view(params@);
    let ghost av = nodes_view(args@);
    if params.len() != args.len() || values.len() != args.len() {
        return Err(RuntimeError::TypeFault);
    }
    let mut k: usize = 0;
    while k < params.len()
        invariant
            k <= params.len(),
            params.len() == args.len(),
            values.len() == args.len(),
            pv == nodes_view(params@),
            av == nodes_view(args@),
            forall|j: int| 0 <= j < k ==> #[trigger] pv[j] is ParamDef,
        decreases params.len() - k,
    {
        assert(pv[k as int] == params@[k as int]@);
        match &*params[k] {
            Node::ParamDef(_, _) => {},
            _ => {
                assert(!(pv[k as int] is ParamDef));
                return Err(RuntimeError::Malformed);
            },
        }
        k += 1;
    }
    let mut callee = interp_context();
    callee.add_scope();
    let ghost start = callee@.scopes;
    let mut i: usize = 0;
    while i < params.len()
        invariant
            i <= params.len(),
            params.len() == args.len(),
            values.len() == args.len(),
            pv == nodes_view(params@),
            av == nodes_view(args@),
            caller.wf(),
            callee.wf(),
            callee@.returned is None,
            all_params(pv),
            start == env_push(Seq::<Map<Seq<char>, SlotView>>::empty()),
            bind_references(pv, av, caller@.scopes, 0, start) == bind_references(
                pv,
                av,
                caller@.scopes,
                i as int,
                callee@.scopes,
            ),
        decreases params.len() - i,
    {
        assert(pv[i as int] == params@[i as int]@);
        assert(av[i as int] == args@[i as int]@);
        match &*params[i] {
            Node::ParamDef(pname, ann) => match read_mode(ann) {
                None => {},
                Some(exclusive) => match &*args[i] {
                    Node::ID(arg) => {
                        let v = match caller.deref(arg) {
                            Ok(v) => v,
                            Err(e) => {
                                assert(bind_references(
                                    pv,
                                    av,
                                    caller@.scopes,
                                    i as int,
                                    callee@.scopes,
                                ) is Err);
                                return Err(e);
                            },
                        };
                        let kept = ledger_of(pname);
                        callee.insert(&kept, &v);
                        callee.insert_borrow(pname, &kept, exclusive);
                    },
                    _ => {
                        assert(bind_references(
                            pv,
                            av,
                            caller@.scopes,
                            i as int,
                            callee@.scopes,
                        ) is Err);
                        return Err(RuntimeError::DanglingReference);
                    },
                },
            },
            _ => {},
        }
        i += 1;
    }
    callee.add_scope();
    let ghost top = callee@.scopes;
    let mut j: usize = 0;
    while j < params.len()
        invariant
            j <= params.len(),
            values.len() == params.len(),
            pv == nodes_view(params@),
            callee.wf(),
            callee@.returned is None,
            bind_values(pv, values@, 0, top) == bind_values(pv, values@, j as int, callee@.scopes),
        decreases params.len() - j,
    {
        assert(pv[j as int] == params@[j as int]@);
        match &*params[j] {
            Node::ParamDef(pname, ann) => match read_mode(ann) {
                None => {
                    callee.insert(pname, &values[j]);
                },
                Some(_) => {},
            },
            _ => {},
        }
        j += 1;
    }
    Ok(callee)
}

/// Executes a call.
pub fn interpret_call(
    func_name: &String,
    args: &Vec<Box<Node>>,
    funcs: &mut FnContext,
    vars: &mut VarContext,
    fuel: usize,
) -> (r: Result<Value, RuntimeError>)
    requires
        old(vars).wf(),
        old(funcs).wf(),
    ensures
        final(vars).wf(),
        final(funcs).wf(),
        eval_call(func_name@, nodes_view(args@), old(vars)@, old(funcs)@, fuel as nat) == (Evaluated {
            result: r,
            act: final(vars)@,
            funcs: final(funcs)@,
        }),
    decreases fuel, Node::Call(*func_name, *args), 0nat,
{
    proof {
        let n = Node::Call(*func_name, *args);
        assert(n->Call_1 == *args);
    }
    let values = match eval_list(args, vars, funcs, fuel) {
        Ok(vs) => vs,
        Err(e) => {
            return Err(e);
        },
    };
    let (params, body) = match funcs.fn_env.get(func_name) {
        Some(info) => (copy_nodes(&info.params), copy_nodes(&info.instructions)),
        None => {
            return Err(RuntimeError::UnknownFunction);
        },
    };
    if fuel == 0 {
        return Err(RuntimeError::OutOfFuel);
    }
    let mut callee = match enter_call(&params, args, &values, vars) {
        Ok(c) => c,
        Err(e) => {
            return Err(e);
        },
    };
    match run_seq(&body, &mut callee, funcs, fuel - 1) {
        Err(e) => Err(e),
        Ok(last) => match callee.returned {
            Some(v) => Ok(v),
            None => if ends_in_result(&body) {
                Ok(last)
            } else {
                Ok(Value::NoValue)
            },
        },
    }
}

/// Executes a call; the same as `interpret_call`.
pub fn interpret_call_wrapper(
    func_name: &String,
    args: &Vec<Box<Node>>,
    funcs: &mut FnContext,
    vars: &mut VarContext,
    fuel: usize,
) -> (r: Result<Value, RuntimeError>)
    requires
        old(vars).wf(),
        old(funcs).wf(),
    ensures
        final(vars).wf(),
        final(funcs).wf(),
        eval_call(func_name@, nodes_view(args@), old(vars)@, old(funcs)@, fuel as nat) == (Evaluated {
            result: r,
            act: final(vars)@,
            funcs: final(funcs)@,
        }),
    decreases fuel, Node::Call(*func_name, *args), 1nat,
{
    interpret_call(func_name, args, funcs, vars, fuel)
}

/// Runs a program: registers its functions and calls `main`.
pub fn interpret_program(functions: &Vec<Box<Node>>, fuel: usize) -> (r: Result<Value, RuntimeError>)
    ensures
        r == run_program(nodes_view(functions@), fuel as nat),
    decreases fuel, Node::Program(*functions), 0nat,
{
    let ghost fv = nodes_view(functions@);
    let mut funcs = interp_fn_context();
    let mut i: usize = 0;
    while i < functions.len()
        invariant
            i <= functions.len(),
            fv == nodes_view(functions@),
            funcs.wf(),
            funcs@ == define_all(fv, i as int),
            forall|j: int| 0 <= j < i ==> #[trigger] fv[j] is FnDef,
        decreases functions.len() - i,
    {
        assert(fv[i as int] == functions@[i as int]@);
        match &*functions[i] {
            Node::FnDef(name, params, _, body) => {
                func_definition(name, params, body, &mut funcs);
            },
            _ => {
                return Err(RuntimeError::Malformed);
            },
        }
        i += 1;
    }
    if fuel == 0 {
        return Err(RuntimeError::OutOfFuel);
    }
    let mut vars = interp_context();
    let no_args: Vec<Box<Node>> = Vec::new();
    assert(nodes_view(no_args@) =~= Seq::<Ast>::empty());
    interpret_call_wrapper(&"main".to_owned(), &no_args, &mut funcs, &mut vars, fuel - 1)
}

/// Evaluates one node of the syntax tree in an activation, with the given
/// function table. `fuel` bounds how deep calls and loop iterations nest.
pub fn interpret(node: &Node, vars: &mut VarContext, funcs: &mut FnContext, fuel: usize) -> (r: Result<
    Value,
    RuntimeError,
>)
    requires
        old(vars).wf(),
        old(funcs).wf(),
    ensures
        final(vars).wf(),
        final(funcs).wf(),
        follows_rules(node@, r, old(vars)@, old(funcs)@, final(vars)@, final(funcs)@, fuel as nat),
    decreases fuel, *node, 2nat,
{
    match node {
        Node::Number(n) => Ok(Value::Number(*n)),
        Node::Boolean(b) => Ok(Value::Boolean(*b)),
        Node::ID(s) => match vars.var_env.lookup(s) {
            Some(slot) => Ok(slot.value),
            None => Err(RuntimeError::UnboundName),
        },
        Node::Op(l, o, r) => interpret_op(l, o, r, vars, funcs, fuel),
        Node::UnaryOp(o, e) => interpret_unary_op(o, e, vars, funcs, fuel),
        Node::Declaration(name, m, t, value) => {
            proof {
                lemma_let_ignores_annotation(node@, vars@, funcs@, fuel as nat);
            }
            interpret_let(name, value, vars, funcs, fuel)
        },
        Node::Assign(s, e) => interpret_assign(s, e, vars, funcs, fuel),
        Node::WriteByRef(_, s, e) => {
            proof {
                lemma_write_ignores_operator(node@, vars@, funcs@, fuel as nat);
            }
            interpret_write_ref(s, e, vars, funcs, fuel)
        },
        Node::While(c, body) => interpret_while(c, body, vars, funcs, fuel),
        Node::IfStmt(c, body) => interpret_if(c, body, vars, funcs, fuel),
        Node::IfElse(c, a, b) => interpret_if_else(c, a, b, vars, funcs, fuel),
        Node::BlockValue(e) => interpret(e, vars, funcs, fuel),
        Node::Return(o) => interpret_return(o, vars, funcs, fuel),
        Node::Call(s, args) => interpret_call_wrapper(s, args, funcs, vars, fuel),
        Node::Program(fns) => interpret_program(fns, fuel),
        Node::Type(_) => Err(RuntimeError::Malformed),
        Node::ParamDef(_, _) => Err(RuntimeError::Malformed),
        Node::FnDef(_, _, _, _) => Err(RuntimeError::Malformed),
    }
}

} // verus!
