//! The evaluation rules, as a function from a syntax tree, an activation and
//! a function table to a value or a fault and the state that the evaluation
//! leaves. The rules take a bound `fuel` on how deep calls and loop
//! iterations may nest, so that every evaluation ends.

use vstd::prelude::*;
use crate::ast::{Ast, Opcode};
use crate::ledger::{
    ledger_add, ledger_release, plain_slot, read_access, reference_slot, write_access, SlotView,
};
use crate::scope::{env_assign, env_declare, env_lookup, env_pop, env_push};
use crate::values::{binary_value, negation_value, RuntimeError, Value};

verus! {

/// The state of one function activation: its scopes, innermost first, and
/// the value of the `return` that is ending it, if one was met.
pub ghost struct Activation {
    pub scopes: Seq<Map<Seq<char>, SlotView>>,
    pub returned: Option<Value>,
}

/// A function definition as the evaluator keeps it.
pub ghost struct FnBody {
    pub params: Seq<Ast>,
    pub body: Seq<Ast>,
}

/// The outcome of evaluating one node.
pub ghost struct Evaluated {
    pub result: Result<Value, RuntimeError>,
    pub act: Activation,
    pub funcs: Map<Seq<char>, FnBody>,
}

/// The outcome of binding a reference.
pub ghost struct Bound {
    pub result: Result<Value, RuntimeError>,
    pub act: Activation,
}

/// The outcome of evaluating a list of arguments.
pub ghost struct EvaluatedList {
    pub result: Result<Seq<Value>, RuntimeError>,
    pub act: Activation,
    pub funcs: Map<Seq<char>, FnBody>,
}

/// The scopes after declaring `id` with the value `v`.
pub open spec fn env_insert(env: Seq<Map<Seq<char>, SlotView>>, id: Seq<char>, v: Value) -> Seq<
    Map<Seq<char>, SlotView>,
> {
    env_declare(env, id, plain_slot(v))
}

/// The scopes after giving the variable `id` the value `v`; its borrows stay.
pub open spec fn env_update(env: Seq<Map<Seq<char>, SlotView>>, id: Seq<char>, v: Value) -> Seq<
    Map<Seq<char>, SlotView>,
> {
    match env_lookup(env, id) {
        Some(s) => env_assign(env, id, SlotView { value: v, ..s }),
        None => env,
    }
}

/// The scopes after `borrower` took a borrow of `target`: the borrower is
/// declared in the innermost scope as a reference to the target, and the
/// borrow is entered in the target's ledger.
pub open spec fn env_borrow(
    env: Seq<Map<Seq<char>, SlotView>>,
    borrower: Seq<char>,
    target: Seq<char>,
    exclusive: bool,
) -> Seq<Map<Seq<char>, SlotView>> {
    let declared = env_declare(env, borrower, reference_slot(target));
    match env_lookup(declared, target) {
        Some(s) => env_assign(
            declared,
            target,
            SlotView { borrows: ledger_add(s.borrows, borrower, exclusive), ..s },
        ),
        None => declared,
    }
}

/// The scopes after the variable `id` lost its most recent exclusive borrow.
pub open spec fn env_release(env: Seq<Map<Seq<char>, SlotView>>, id: Seq<char>) -> Seq<
    Map<Seq<char>, SlotView>,
> {
    match env_lookup(env, id) {
        Some(s) => env_assign(env, id, SlotView { borrows: ledger_release(s.borrows), ..s }),
        None => env,
    }
}

/// The value read through the reference `name`.
pub open spec fn env_deref(env: Seq<Map<Seq<char>, SlotView>>, name: Seq<char>) -> Result<
    Value,
    RuntimeError,
> {
    match env_lookup(env, name) {
        None => Err(RuntimeError::UnboundName),
        Some(r) => match r.borrow_of {
            None => Err(RuntimeError::DanglingReference),
            Some(target) => match env_lookup(env, target) {
                None => Err(RuntimeError::UnboundName),
                Some(s) => match read_access(s.borrows, name, 0) {
                    Ok(_) => Ok(s.value),
                    Err(e) => Err(e),
                },
            },
        },
    }
}

/// The variable that a write through the reference `name` changes.
pub open spec fn env_write_target(env: Seq<Map<Seq<char>, SlotView>>, name: Seq<char>) -> Result<
    Seq<char>,
    RuntimeError,
> {
    match env_lookup(env, name) {
        None => Err(RuntimeError::UnboundName),
        Some(r) => match r.borrow_of {
            None => Err(RuntimeError::DanglingReference),
            Some(target) => match env_lookup(env, target) {
                None => Err(RuntimeError::UnboundName),
                Some(s) => if write_access(s.borrows, name) {
                    Ok(target)
                } else {
                    Err(RuntimeError::WriteRejected)
                },
            },
        },
    }
}

/// How a parameter with the annotation `ann` is passed: `None` by value,
/// `Some(exclusive)` by reference.
pub open spec fn param_mode(ann: Seq<char>) -> Option<bool> {
    if ann == ": &i32"@ || ann == ": &bool"@ {
        Some(false)
    } else if ann == ": &mut i32"@ || ann == ": &mut bool"@ {
        Some(true)
    } else {
        None
    }
}

/// Whether every node is a parameter definition.
pub open spec fn all_params(params: Seq<Ast>) -> bool {
    forall|i: int| 0 <= i < params.len() ==> #[trigger] params[i] is ParamDef
}

/// The name under which the callee keeps the value that the reference
/// parameter `param` refers to. No identifier of a program starts with `*`,
/// so the name can clash with no variable.
pub open spec fn ledger_name(param: Seq<char>) -> Seq<char> {
    "*"@ + param
}

/// Binds the reference parameters from position `i` on. The argument of
/// such a parameter must be a name; the value read through it in the
/// caller's scopes is entered in the callee's under the parameter's ledger
/// name, and the parameter becomes a borrow of that entry.
pub open spec fn bind_references(
    params: Seq<Ast>,
    args: Seq<Ast>,
    caller: Seq<Map<Seq<char>, SlotView>>,
    i: int,
    callee: Seq<Map<Seq<char>, SlotView>>,
) -> Result<Seq<Map<Seq<char>, SlotView>>, RuntimeError>
    decreases params.len() - i,
{
    if i < 0 || i >= params.len() {
        Ok(callee)
    } else {
        match params[i] {
            Ast::ParamDef(pname, ann) => match param_mode(ann) {
                None => bind_references(params, args, caller, i + 1, callee),
                Some(exclusive) => match args[i] {
                    Ast::ID(arg) => match env_deref(caller, arg) {
                        Err(e) => Err(e),
                        Ok(v) => bind_references(
                            params,
                            args,
                            caller,
                            i + 1,
                            env_borrow(
                                env_insert(callee, ledger_name(pname), v),
                                pname,
                                ledger_name(pname),
                                exclusive,
                            ),
                        ),
                    },
                    _ => Err(RuntimeError::DanglingReference),
                },
            },
            _ => Err(RuntimeError::Malformed),
        }
    }
}

/// Binds the value parameters from position `i` on to copies of their
/// arguments' values.
pub open spec fn bind_values(
    params: Seq<Ast>,
    values: Seq<Value>,
    i: int,
    callee: Seq<Map<Seq<char>, SlotView>>,
) -> Seq<Map<Seq<char>, SlotView>>
    decreases params.len() - i,
{
    if i < 0 || i >= params.len() {
        callee
    } else {
        match params[i] {
            Ast::ParamDef(pname, ann) if param_mode(ann) is None => bind_values(
                params,
                values,
                i + 1,
                env_insert(callee, pname, values[i]),
            ),
            _ => bind_values(params, values, i + 1, callee),
        }
    }
}

/// The scopes in which a function body starts: a scope with what the
/// reference parameters borrow, and above it the function's top scope with
/// the value parameters. It is built from nothing of the caller's but the
/// values read at the call.
pub open spec fn enter(
    params: Seq<Ast>,
    args: Seq<Ast>,
    values: Seq<Value>,
    caller: Seq<Map<Seq<char>, SlotView>>,
) -> Result<Seq<Map<Seq<char>, SlotView>>, RuntimeError> {
    if params.len() != args.len() || values.len() != args.len() {
        Err(RuntimeError::TypeFault)
    } else if !all_params(params) {
        Err(RuntimeError::Malformed)
    } else {
        match bind_references(params, args, caller, 0, env_push(Seq::empty())) {
            Err(e) => Err(e),
            Ok(callee) => Ok(bind_values(params, values, 0, env_push(callee))),
        }
    }
}

/// The value of a block whose last executed statement gave `last`: the
/// returned value if a `return` ended it, else its trailing value, else
/// nothing.
pub open spec fn block_value(stmts: Seq<Ast>, last: Value, returned: Option<Value>) -> Value {
    match returned {
        Some(v) => v,
        None => if stmts.len() > 0 && stmts.last() is BlockValue {
            last
        } else {
            Value::NoValue
        },
    }
}

/// The value of a call whose body's last executed statement gave `last`:
/// the returned value if a `return` ended it, else the trailing value or
/// the value of an `if`/`else` in last position, else nothing.
pub open spec fn call_value(body: Seq<Ast>, last: Value, returned: Option<Value>) -> Value {
    match returned {
        Some(v) => v,
        None => if body.len() > 0 && (body.last() is BlockValue || body.last() is IfElse) {
            last
        } else {
            Value::NoValue
        },
    }
}

/// The binding that `name = &target` or `name = &mut target` creates, where
/// `e` is the expression that gave the reference marker.
pub open spec fn bind_reference(name: Seq<char>, e: Ast, act: Activation) -> Bound {
    match e {
        Ast::UnaryOp(op, inner) if (op is Ref || op is MutRef) && *inner is ID => Bound {
            result: Ok(Value::NoValue),
            act: Activation {
                scopes: env_borrow(act.scopes, name, inner->ID_0, op is MutRef),
                ..act
            },
        },
        _ => Bound { result: Err(RuntimeError::DanglingReference), act },
    }
}

/// The function table after the first `n` definitions were registered in
/// order; a later one replaces an earlier one of the same name.
pub open spec fn define_all(fns: Seq<Ast>, n: int) -> Map<Seq<char>, FnBody>
    decreases n,
{
    if n <= 0 {
        Map::empty()
    } else {
        match fns[n - 1] {
            Ast::FnDef(name, params, _, body) => define_all(fns, n - 1).insert(
                name,
                FnBody { params, body },
            ),
            _ => define_all(fns, n - 1),
        }
    }
}

/// Whether every node is a function definition.
pub open spec fn all_defs(fns: Seq<Ast>) -> bool {
    forall|i: int| 0 <= i < fns.len() ==> #[trigger] fns[i] is FnDef
}

/// Evaluates the arguments from position `i` on, left to right; `acc` holds
/// the values found so far.
pub open spec fn eval_args(
    args: Seq<Ast>,
    i: int,
    acc: Seq<Value>,
    act: Activation,
    funcs: Map<Seq<char>, FnBody>,
    fuel: nat,
) -> EvaluatedList
    decreases fuel, args, args.len() - i,
{
    if i < 0 || i >= args.len() {
        EvaluatedList { result: Ok(acc), act, funcs }
    } else {
        let a = eval(args[i], act, funcs, fuel);
        match a.result {
            Err(e) => EvaluatedList { result: Err(e), act: a.act, funcs: a.funcs },
            Ok(v) => eval_args(args, i + 1, acc.push(v), a.act, a.funcs, fuel),
        }
    }
}

/// Executes the statements from position `i` on, in order, until one
/// faults or a `return` was met; `last` is the value of the statement
/// executed last.
pub open spec fn eval_seq(
    stmts: Seq<Ast>,
    i: int,
    last: Value,
    act: Activation,
    funcs: Map<Seq<char>, FnBody>,
    fuel: nat,
) -> Evaluated
    decreases fuel, stmts, stmts.len() - i,
{
    if i < 0 || i >= stmts.len() || act.returned is Some {
        Evaluated { result: Ok(last), act, funcs }
    } else {
        let a = eval(stmts[i], act, funcs, fuel);
        match a.result {
            Err(_) => a,
            Ok(v) => eval_seq(stmts, i + 1, v, a.act, a.funcs, fuel),
        }
    }
}

/// Executes a block in a scope of its own. The scope is left again however
/// the block ends: normally, by a `return`, or by a fault.
pub open spec fn eval_block(
    stmts: Seq<Ast>,
    act: Activation,
    funcs: Map<Seq<char>, FnBody>,
    fuel: nat,
) -> Evaluated
    decreases fuel, stmts, stmts.len() + 1,
{
    let b = eval_seq(
        stmts,
        0,
        Value::NoValue,
        Activation { scopes: env_push(act.scopes), ..act },
        funcs,
        fuel,
    );
    Evaluated {
        result: match b.result {
            Err(e) => Err(e),
            Ok(last) => Ok(block_value(stmts, last, b.act.returned)),
        },
        act: Activation { scopes: env_pop(b.act.scopes), ..b.act },
        funcs: b.funcs,
    }
}

/// Executes a `while` loop. Every test of the condition takes one unit of
/// fuel.
pub open spec fn eval_loop(
    c: Ast,
    body: Seq<Ast>,
    act: Activation,
    funcs: Map<Seq<char>, FnBody>,
    fuel: nat,
) -> Evaluated
    decreases fuel, Ast::While(Box::new(c), body), 0nat,
{
    if fuel == 0 {
        Evaluated { result: Err(RuntimeError::OutOfFuel), act, funcs }
    } else {
        proof {
            let n = Ast::While(Box::new(c), body);
            assert(*n->While_0 == c);
            assert(n->While_1 == body);
        }
        let a = eval(c, act, funcs, fuel);
        match a.result {
            Err(_) => a,
            Ok(Value::Boolean(true)) => {
                let b = eval_block(body, a.act, a.funcs, fuel);
                if b.result is Err || b.act.returned is Some {
                    b
                } else {
                    eval_loop(c, body, b.act, b.funcs, (fuel - 1) as nat)
                }
            },
            Ok(Value::Boolean(false)) => Evaluated {
                result: Ok(Value::NoValue),
                act: a.act,
                funcs: a.funcs,
            },
            Ok(_) => Evaluated { result: Err(RuntimeError::TypeFault), act: a.act, funcs: a.funcs },
        }
    }
}

/// Executes a call: evaluates the arguments in the caller's activation,
/// builds an activation for the callee that shares nothing with the
/// caller's, and executes the body in it. A call takes one unit of fuel.
/// The caller's scopes are as the arguments left them: what the callee
/// writes through a reference parameter is lost when it returns.
pub open spec fn eval_call(
    name: Seq<char>,
    args: Seq<Ast>,
    act: Activation,
    funcs: Map<Seq<char>, FnBody>,
    fuel: nat,
) -> Evaluated
    decreases fuel, Ast::Call(name, args), 0nat,
{
    proof {
        let n = Ast::Call(name, args);
        assert(n->Call_1 == args);
    }
    let a = eval_args(args, 0, Seq::empty(), act, funcs, fuel);
    match a.result {
        Err(e) => Evaluated { result: Err(e), act: a.act, funcs: a.funcs },
        Ok(values) => if !a.funcs.contains_key(name) {
            Evaluated { result: Err(RuntimeError::UnknownFunction), act: a.act, funcs: a.funcs }
        } else if fuel == 0 {
            Evaluated { result: Err(RuntimeError::OutOfFuel), act: a.act, funcs: a.funcs }
        } else {
            let def = a.funcs[name];
            match enter(def.params, args, values, a.act.scopes) {
                Err(e) => Evaluated { result: Err(e), act: a.act, funcs: a.funcs },
                Ok(scopes) => {
                    let b = eval_seq(
                        def.body,
                        0,
                        Value::NoValue,
                        Activation { scopes, returned: None },
                        a.funcs,
                        (fuel - 1) as nat,
                    );
                    Evaluated {
                        result: match b.result {
                            Err(e) => Err(e),
                            Ok(last) => Ok(call_value(def.body, last, b.act.returned)),
                        },
                        act: a.act,
                        funcs: b.funcs,
                    }
                },
            }
        },
    }
}

/// Runs a program: registers every function definition and calls `main`
/// without arguments in an activation of its own. Starting the program
/// takes one unit of fuel.
pub open spec fn run_program(fns: Seq<Ast>, fuel: nat) -> Result<Value, RuntimeError>
    decreases fuel, Ast::Program(fns), 0nat,
{
    if !all_defs(fns) {
        Err(RuntimeError::Malformed)
    } else if fuel == 0 {
        Err(RuntimeError::OutOfFuel)
    } else {
        eval_call(
            "main"@,
            Seq::empty(),
            Activation { scopes: Seq::empty(), returned: None },
            define_all(fns, fns.len() as int),
            (fuel - 1) as nat,
        ).result
    }
}

/// The evaluation rules.
pub open spec fn eval(node: Ast, act: Activation, funcs: Map<Seq<char>, FnBody>, fuel: nat) -> Evaluated
    decreases fuel, node, 1nat,
{
    match node {
        Ast::Number(n) => Evaluated { result: Ok(Value::Number(n)), act, funcs },
        Ast::Boolean(b) => Evaluated { result: Ok(Value::Boolean(b)), act, funcs },
        Ast::ID(name) => Evaluated {
            result: match env_lookup(act.scopes, name) {
                Some(s) => Ok(s.value),
                None => Err(RuntimeError::UnboundName),
            },
            act,
            funcs,
        },
        Ast::Op(l, op, r) => {
            let a = eval(*l, act, funcs, fuel);
            match a.result {
                Err(_) => a,
                Ok(lv) => {
                    let b = eval(*r, a.act, a.funcs, fuel);
                    match b.result {
                        Err(_) => b,
                        Ok(rv) => Evaluated {
                            result: binary_value(op, lv, rv),
                            act: b.act,
                            funcs: b.funcs,
                        },
                    }
                },
            }
        },
        Ast::UnaryOp(op, e) => match op {
            Opcode::DeRef => match *e {
                Ast::ID(name) => Evaluated { result: env_deref(act.scopes, name), act, funcs },
                _ => Evaluated { result: Err(RuntimeError::Malformed), act, funcs },
            },
            Opcode::Ref | Opcode::MutRef => {
                let a = eval(*e, act, funcs, fuel);
                match a.result {
                    Err(_) => a,
                    Ok(_) => Evaluated { result: Ok(Value::RefValue), act: a.act, funcs: a.funcs },
                }
            },
            Opcode::UnarySub | Opcode::Not => {
                let a = eval(*e, act, funcs, fuel);
                match a.result {
                    Err(_) => a,
                    Ok(v) => Evaluated { result: negation_value(op, v), act: a.act, funcs: a.funcs },
                }
            },
            _ => Evaluated { result: Err(RuntimeError::Malformed), act, funcs },
        },
        Ast::Declaration(name, _, _, init) => match init {
            None => Evaluated {
                result: Ok(Value::NoValue),
                act: Activation { scopes: env_insert(act.scopes, name, Value::NoValue), ..act },
                funcs,
            },
            Some(e) => {
                let a = eval(*e, act, funcs, fuel);
                match a.result {
                    Err(_) => a,
                    Ok(Value::RefValue) => {
                        let b = bind_reference(name, *e, a.act);
                        Evaluated { result: b.result, act: b.act, funcs: a.funcs }
                    },
                    Ok(v) => Evaluated {
                        result: Ok(Value::NoValue),
                        act: Activation { scopes: env_insert(a.act.scopes, name, v), ..a.act },
                        funcs: a.funcs,
                    },
                }
            },
        },
        Ast::Assign(name, e) => {
            let a = eval(*e, act, funcs, fuel);
            match a.result {
                Err(_) => a,
                Ok(Value::RefValue) => {
                    let b = bind_reference(name, *e, a.act);
                    Evaluated { result: b.result, act: b.act, funcs: a.funcs }
                },
                Ok(v) => if env_lookup(a.act.scopes, name) is None {
                    Evaluated { result: Err(RuntimeError::UnboundName), act: a.act, funcs: a.funcs }
                } else {
                    Evaluated {
                        result: Ok(Value::NoValue),
                        act: Activation {
                            scopes: env_release(env_update(a.act.scopes, name, v), name),
                            ..a.act
                        },
                        funcs: a.funcs,
                    }
                },
            }
        },
        Ast::WriteByRef(_, name, e) => match env_write_target(act.scopes, name) {
            Err(x) => Evaluated { result: Err(x), act, funcs },
            Ok(target) => {
                let a = eval(*e, act, funcs, fuel);
                match a.result {
                    Err(_) => a,
                    Ok(v) => Evaluated {
                        result: Ok(Value::NoValue),
                        act: Activation { scopes: env_update(a.act.scopes, target, v), ..a.act },
                        funcs: a.funcs,
                    },
                }
            },
        },
        Ast::While(c, body) => eval_loop(*c, body, act, funcs, fuel),
        Ast::IfStmt(c, body) => {
            let a = eval(*c, act, funcs, fuel);
            match a.result {
                Err(_) => a,
                Ok(Value::Boolean(true)) => eval_block(body, a.act, a.funcs, fuel),
                Ok(Value::Boolean(false)) => Evaluated {
                    result: Ok(Value::NoValue),
                    act: a.act,
                    funcs: a.funcs,
                },
                Ok(_) => Evaluated { result: Err(RuntimeError::TypeFault), act: a.act, funcs: a.funcs },
            }
        },
        Ast::IfElse(c, first, second) => {
            let a = eval(*c, act, funcs, fuel);
            match a.result {
                Err(_) => a,
                Ok(Value::Boolean(true)) => eval_block(first, a.act, a.funcs, fuel),
                Ok(Value::Boolean(false)) => eval_block(second, a.act, a.funcs, fuel),
                Ok(_) => Evaluated { result: Err(RuntimeError::TypeFault), act: a.act, funcs: a.funcs },
            }
        },
        Ast::Return(e) => match e {
            None => Evaluated {
                result: Ok(Value::NoValue),
                act: Activation { returned: first_return(act.returned, Value::NoValue), ..act },
                funcs,
            },
            Some(e) => {
                let a = eval(*e, act, funcs, fuel);
                match a.result {
                    Err(_) => a,
                    Ok(v) => Evaluated {
                        result: Ok(v),
                        act: Activation { returned: first_return(a.act.returned, v), ..a.act },
                        funcs: a.funcs,
                    },
                }
            },
        },
        Ast::BlockValue(e) => eval(*e, act, funcs, fuel),
        Ast::Call(name, args) => eval_call(name, args, act, funcs, fuel),
        Ast::Program(fns) => Evaluated { result: run_program(fns, fuel), act, funcs },
        Ast::Type(_) | Ast::ParamDef(_, _) | Ast::FnDef(_, _, _, _) => Evaluated {
            result: Err(RuntimeError::Malformed),
            act,
            funcs,
        },
    }
}

/// The value that ends the activation once a `return` gave `v`: the first
/// `return` met decides.
pub open spec fn first_return(returned: Option<Value>, v: Value) -> Option<Value> {
    match returned {
        Some(w) => Some(w),
        None => Some(v),
    }
}

} // verus!
