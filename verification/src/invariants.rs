//! What every evaluation keeps: the number of scopes of the activation, and
//! the aliasing rule in every borrow ledger.

use vstd::prelude::*;
use crate::ast::Ast;
use crate::ledger::{
    ledger_add, ledger_ok, ledger_release, lemma_add_keeps_rule, lemma_release_keeps_rule,
    plain_slot, reference_slot, SlotView,
};
use crate::scope::{env_assign, env_declare, env_lookup, env_pop, env_push};
use crate::semantics::{
    bind_reference, bind_references, bind_values, enter, env_borrow, env_deref, env_insert,
    env_release, env_update, eval, eval_args, eval_block, eval_call, eval_loop, eval_seq,
    Activation, FnBody,
};
use crate::values::Value;

verus! {

/// Whether every ledger of every scope keeps the aliasing rule.
pub open spec fn ledgers_ok(env: Seq<Map<Seq<char>, SlotView>>) -> bool {
    forall|i: int, name: Seq<char>|
        0 <= i < env.len() && env[i].contains_key(name) ==> ledger_ok(
            (#[trigger] env[i][name]).borrows,
        )
}

/// Whether `after` has as many scopes as `before`. An activation without
/// scopes may have got its first one.
pub open spec fn depth_kept(
    before: Seq<Map<Seq<char>, SlotView>>,
    after: Seq<Map<Seq<char>, SlotView>>,
) -> bool {
    if before.len() == 0 {
        after.len() <= 1
    } else {
        after.len() == before.len()
    }
}

/// Whether an activation that started in `before` and is now in `after`
/// has kept its scopes and the aliasing rule.
pub open spec fn well_kept(
    before: Seq<Map<Seq<char>, SlotView>>,
    after: Seq<Map<Seq<char>, SlotView>>,
) -> bool {
    depth_kept(before, after) && ledgers_ok(after)
}

proof fn lemma_rest_ok(env: Seq<Map<Seq<char>, SlotView>>)
    requires
        ledgers_ok(env),
        env.len() > 0,
    ensures
        ledgers_ok(env.drop_first()),
{
    let rest = env.drop_first();
    assert forall|i: int, name: Seq<char>|
        0 <= i < rest.len() && rest[i].contains_key(name) implies ledger_ok(
        (#[trigger] rest[i][name]).borrows,
    ) by {
        assert(rest[i] == env[i + 1]);
        assert(ledger_ok(env[i + 1][name].borrows));
    }
}

proof fn lemma_front_ok(frame: Map<Seq<char>, SlotView>, rest: Seq<Map<Seq<char>, SlotView>>)
    requires
        ledgers_ok(rest),
        forall|name: Seq<char>| frame.contains_key(name) ==> ledger_ok((#[trigger] frame[name]).borrows),
    ensures
        ledgers_ok(seq![frame] + rest),
{
    let env = seq![frame] + rest;
    assert forall|i: int, name: Seq<char>|
        0 <= i < env.len() && env[i].contains_key(name) implies ledger_ok(
        (#[trigger] env[i][name]).borrows,
    ) by {
        if i > 0 {
            assert(env[i] == rest[i - 1]);
            assert(ledger_ok(rest[i - 1][name].borrows));
        }
    }
}

/// A slot found in scopes that keep the rule keeps it.
pub proof fn lemma_lookup_ok(env: Seq<Map<Seq<char>, SlotView>>, name: Seq<char>)
    requires
        ledgers_ok(env),
    ensures
        env_lookup(env, name) matches Some(s) ==> ledger_ok(s.borrows),
    decreases env.len(),
{
    if env.len() > 0 {
        if env[0].contains_key(name) {
            assert(ledger_ok(env[0][name].borrows));
        } else {
            lemma_rest_ok(env);
            lemma_lookup_ok(env.drop_first(), name);
        }
    }
}

/// A declaration of a slot that keeps the rule keeps depth and rule.
pub proof fn lemma_declare_ok(env: Seq<Map<Seq<char>, SlotView>>, name: Seq<char>, slot: SlotView)
    requires
        ledgers_ok(env),
        ledger_ok(slot.borrows),
    ensures
        well_kept(env, env_declare(env, name, slot)),
{
    let after = env_declare(env, name, slot);
    assert forall|i: int, n: Seq<char>|
        0 <= i < after.len() && after[i].contains_key(n) implies ledger_ok(
        (#[trigger] after[i][n]).borrows,
    ) by {
        if env.len() > 0 {
            if i > 0 || n != name {
                assert(ledger_ok(env[i][n].borrows));
            }
        }
    }
}

/// Replacing a slot by one that keeps the rule keeps depth and rule.
pub proof fn lemma_assign_ok(env: Seq<Map<Seq<char>, SlotView>>, name: Seq<char>, slot: SlotView)
    requires
        ledgers_ok(env),
        ledger_ok(slot.borrows),
    ensures
        ledgers_ok(env_assign(env, name, slot)),
        env_assign(env, name, slot).len() == env.len(),
    decreases env.len(),
{
    let after = env_assign(env, name, slot);
    if env.len() == 0 {
    } else if env[0].contains_key(name) {
        assert forall|i: int, n: Seq<char>|
            0 <= i < after.len() && after[i].contains_key(n) implies ledger_ok(
            (#[trigger] after[i][n]).borrows,
        ) by {
            if i > 0 || n != name {
                assert(ledger_ok(env[i][n].borrows));
            }
        }
    } else {
        lemma_rest_ok(env);
        lemma_assign_ok(env.drop_first(), name, slot);
        assert forall|n: Seq<char>| env[0].contains_key(n) implies ledger_ok(
            (#[trigger] env[0][n]).borrows,
        ) by {}
        lemma_front_ok(env[0], env_assign(env.drop_first(), name, slot));
    }
}

/// Entering and leaving a block keep the rule.
pub proof fn lemma_push_pop_ok(env: Seq<Map<Seq<char>, SlotView>>)
    requires
        ledgers_ok(env),
    ensures
        ledgers_ok(env_push(env)),
        ledgers_ok(env_pop(env)),
{
    lemma_front_ok(Map::empty(), env);
    if env.len() > 0 {
        lemma_rest_ok(env);
    }
}

/// Declaring a plain value keeps depth and rule.
pub proof fn lemma_insert_ok(env: Seq<Map<Seq<char>, SlotView>>, id: Seq<char>, v: Value)
    requires
        ledgers_ok(env),
    ensures
        well_kept(env, env_insert(env, id, v)),
{
    lemma_declare_ok(env, id, plain_slot(v));
}

/// Giving a variable a value keeps depth and rule.
pub proof fn lemma_update_ok(env: Seq<Map<Seq<char>, SlotView>>, id: Seq<char>, v: Value)
    requires
        ledgers_ok(env),
    ensures
        ledgers_ok(env_update(env, id, v)),
        env_update(env, id, v).len() == env.len(),
{
    lemma_lookup_ok(env, id);
    match env_lookup(env, id) {
        Some(s) => {
            lemma_assign_ok(env, id, SlotView { value: v, ..s });
        },
        None => {},
    }
}

/// Dropping the exclusive borrow of a variable keeps depth and rule.
pub proof fn lemma_release_ok(env: Seq<Map<Seq<char>, SlotView>>, id: Seq<char>)
    requires
        ledgers_ok(env),
    ensures
        ledgers_ok(env_release(env, id)),
        env_release(env, id).len() == env.len(),
{
    lemma_lookup_ok(env, id);
    match env_lookup(env, id) {
        Some(s) => {
            lemma_release_keeps_rule(s.borrows);
            lemma_assign_ok(env, id, SlotView { borrows: ledger_release(s.borrows), ..s });
        },
        None => {},
    }
}

/// Taking a borrow keeps depth and rule.
pub proof fn lemma_borrow_ok(
    env: Seq<Map<Seq<char>, SlotView>>,
    borrower: Seq<char>,
    target: Seq<char>,
    exclusive: bool,
)
    requires
        ledgers_ok(env),
    ensures
        well_kept(env, env_borrow(env, borrower, target, exclusive)),
{
    lemma_declare_ok(env, borrower, reference_slot(target));
    let declared = env_declare(env, borrower, reference_slot(target));
    lemma_lookup_ok(declared, target);
    match env_lookup(declared, target) {
        Some(s) => {
            lemma_add_keeps_rule(s.borrows, borrower, exclusive);
            lemma_assign_ok(
                declared,
                target,
                SlotView { borrows: ledger_add(s.borrows, borrower, exclusive), ..s },
            );
        },
        None => {},
    }
}

/// The scopes in which a function body starts keep the aliasing rule.
pub proof fn law_call_starts_well(
    params: Seq<Ast>,
    args: Seq<Ast>,
    values: Seq<Value>,
    caller: Seq<Map<Seq<char>, SlotView>>,
)
    ensures
        enter(params, args, values, caller) matches Ok(callee) ==> ledgers_ok(callee),
{
    let start = env_push(Seq::<Map<Seq<char>, SlotView>>::empty());
    lemma_push_pop_ok(Seq::<Map<Seq<char>, SlotView>>::empty());
    lemma_references_ok(params, args, caller, 0, start);
    match bind_references(params, args, caller, 0, start) {
        Ok(callee) => {
            lemma_push_pop_ok(callee);
            lemma_values_ok(params, values, 0, env_push(callee));
        },
        Err(_) => {},
    }
}

proof fn lemma_references_ok(
    params: Seq<Ast>,
    args: Seq<Ast>,
    caller: Seq<Map<Seq<char>, SlotView>>,
    i: int,
    callee: Seq<Map<Seq<char>, SlotView>>,
)
    requires
        ledgers_ok(callee),
    ensures
        bind_references(params, args, caller, i, callee) matches Ok(after) ==> ledgers_ok(after),
    decreases params.len() - i,
{
    if 0 <= i < params.len() {
        match params[i] {
            Ast::ParamDef(pname, ann) => match crate::semantics::param_mode(ann) {
                None => {
                    lemma_references_ok(params, args, caller, i + 1, callee);
                },
                Some(exclusive) => match args[i] {
                    Ast::ID(arg) => match env_deref(caller, arg) {
                        Ok(v) => {
                            let kept = crate::semantics::ledger_name(pname);
                            lemma_insert_ok(callee, kept, v);
                            lemma_borrow_ok(env_insert(callee, kept, v), pname, kept, exclusive);
                            lemma_references_ok(
                                params,
                                args,
                                caller,
                                i + 1,
                                env_borrow(env_insert(callee, kept, v), pname, kept, exclusive),
                            );
                        },
                        Err(_) => {},
                    },
                    _ => {},
                },
            },
            _ => {},
        }
    }
}

proof fn lemma_values_ok(
    params: Seq<Ast>,
    values: Seq<Value>,
    i: int,
    callee: Seq<Map<Seq<char>, SlotView>>,
)
    requires
        ledgers_ok(callee),
    ensures
        ledgers_ok(bind_values(params, values, i, callee)),
    decreases params.len() - i,
{
    if 0 <= i < params.len() {
        match params[i] {
            Ast::ParamDef(pname, ann) => {
                if crate::semantics::param_mode(ann) is None {
                    lemma_insert_ok(callee, pname, values[i]);
                    lemma_values_ok(params, values, i + 1, env_insert(callee, pname, values[i]));
                } else {
                    lemma_values_ok(params, values, i + 1, callee);
                }
            },
            _ => {
                lemma_values_ok(params, values, i + 1, callee);
            },
        }
    }
}

/// A call leaves the caller's activation as the evaluation of the arguments
/// left it: no scope of the callee is seen by the caller, and what the
/// callee did to its own variables is gone.
pub proof fn law_call_isolated(
    name: Seq<char>,
    args: Seq<Ast>,
    act: Activation,
    funcs: Map<Seq<char>, FnBody>,
    fuel: nat,
)
    ensures
        eval_call(name, args, act, funcs, fuel).act == eval_args(
            args,
            0,
            Seq::empty(),
            act,
            funcs,
            fuel,
        ).act,
{
}

/// Every evaluation leaves the activation with the scopes it had, however it
/// ends: each block that was entered was left again. And it keeps the
/// aliasing rule in every ledger.
pub proof fn law_eval_keeps_scopes(
    node: Ast,
    act: Activation,
    funcs: Map<Seq<char>, FnBody>,
    fuel: nat,
)
    requires
        ledgers_ok(act.scopes),
    ensures
        well_kept(act.scopes, eval(node, act, funcs, fuel).act.scopes),
    decreases fuel, node, 1nat,
{
    match node {
        Ast::Op(l, op, r) => {
            law_eval_keeps_scopes(*l, act, funcs, fuel);
            let a = eval(*l, act, funcs, fuel);
            law_eval_keeps_scopes(*r, a.act, a.funcs, fuel);
        },
        Ast::UnaryOp(op, e) => {
            law_eval_keeps_scopes(*e, act, funcs, fuel);
        },
        Ast::Declaration(name, _, _, init) => match init {
            None => {
                lemma_insert_ok(act.scopes, name, Value::NoValue);
            },
            Some(e) => {
                law_eval_keeps_scopes(*e, act, funcs, fuel);
                let a = eval(*e, act, funcs, fuel);
                match a.result {
                    Ok(Value::RefValue) => {
                        lemma_reference_ok(name, *e, a.act);
                    },
                    Ok(v) => {
                        lemma_insert_ok(a.act.scopes, name, v);
                    },
                    Err(_) => {},
                }
            },
        },
        Ast::Assign(name, e) => {
            law_eval_keeps_scopes(*e, act, funcs, fuel);
            let a = eval(*e, act, funcs, fuel);
            match a.result {
                Ok(Value::RefValue) => {
                    lemma_reference_ok(name, *e, a.act);
                },
                Ok(v) => {
                    lemma_update_ok(a.act.scopes, name, v);
                    lemma_release_ok(env_update(a.act.scopes, name, v), name);
                },
                Err(_) => {},
            }
        },
        Ast::WriteByRef(_, name, e) => {
            law_eval_keeps_scopes(*e, act, funcs, fuel);
            let a = eval(*e, act, funcs, fuel);
            match (crate::semantics::env_write_target(act.scopes, name), a.result) {
                (Ok(target), Ok(v)) => {
                    lemma_update_ok(a.act.scopes, target, v);
                },
                _ => {},
            }
        },
        Ast::While(c, body) => {
            lemma_loop_keeps_scopes(*c, body, act, funcs, fuel);
        },
        Ast::IfStmt(c, body) => {
            law_eval_keeps_scopes(*c, act, funcs, fuel);
            let a = eval(*c, act, funcs, fuel);
            lemma_block_keeps_scopes(body, a.act, a.funcs, fuel);
        },
        Ast::IfElse(c, first, second) => {
            law_eval_keeps_scopes(*c, act, funcs, fuel);
            let a = eval(*c, act, funcs, fuel);
            lemma_block_keeps_scopes(first, a.act, a.funcs, fuel);
            lemma_block_keeps_scopes(second, a.act, a.funcs, fuel);
        },
        Ast::Return(e) => match e {
            Some(e) => {
                law_eval_keeps_scopes(*e, act, funcs, fuel);
            },
            None => {},
        },
        Ast::BlockValue(e) => {
            law_eval_keeps_scopes(*e, act, funcs, fuel);
        },
        Ast::Call(name, args) => {
            lemma_args_keep_scopes(args, 0, Seq::empty(), act, funcs, fuel);
            law_call_isolated(name, args, act, funcs, fuel);
        },
        _ => {},
    }
}

proof fn lemma_reference_ok(name: Seq<char>, e: Ast, act: Activation)
    requires
        ledgers_ok(act.scopes),
    ensures
        well_kept(act.scopes, bind_reference(name, e, act).act.scopes),
{
    match e {
        Ast::UnaryOp(op, inner) => {
            if (op is Ref || op is MutRef) && *inner is ID {
                lemma_borrow_ok(act.scopes, name, inner->ID_0, op is MutRef);
            }
        },
        _ => {},
    }
}

proof fn lemma_args_keep_scopes(
    args: Seq<Ast>,
    i: int,
    acc: Seq<Value>,
    act: Activation,
    funcs: Map<Seq<char>, FnBody>,
    fuel: nat,
)
    requires
        ledgers_ok(act.scopes),
    ensures
        well_kept(act.scopes, eval_args(args, i, acc, act, funcs, fuel).act.scopes),
    decreases fuel, args, args.len() - i,
{
    if 0 <= i < args.len() {
        law_eval_keeps_scopes(args[i], act, funcs, fuel);
        let a = eval(args[i], act, funcs, fuel);
        if a.result is Ok {
            lemma_args_keep_scopes(args, i + 1, acc.push(a.result->Ok_0), a.act, a.funcs, fuel);
        }
    }
}

proof fn lemma_seq_keeps_scopes(
    stmts: Seq<Ast>,
    i: int,
    last: Value,
    act: Activation,
    funcs: Map<Seq<char>, FnBody>,
    fuel: nat,
)
    requires
        ledgers_ok(act.scopes),
    ensures
        well_kept(act.scopes, eval_seq(stmts, i, last, act, funcs, fuel).act.scopes),
    decreases fuel, stmts, stmts.len() - i,
{
    if 0 <= i < stmts.len() && act.returned is None {
        law_eval_keeps_scopes(stmts[i], act, funcs, fuel);
        let a = eval(stmts[i], act, funcs, fuel);
        if a.result is Ok {
            lemma_seq_keeps_scopes(stmts, i + 1, a.result->Ok_0, a.act, a.funcs, fuel);
        }
    }
}

proof fn lemma_block_keeps_scopes(
    stmts: Seq<Ast>,
    act: Activation,
    funcs: Map<Seq<char>, FnBody>,
    fuel: nat,
)
    requires
        ledgers_ok(act.scopes),
    ensures
        eval_block(stmts, act, funcs, fuel).act.scopes.len() == act.scopes.len(),
        ledgers_ok(eval_block(stmts, act, funcs, fuel).act.scopes),
    decreases fuel, stmts, stmts.len() + 1,
{
    lemma_push_pop_ok(act.scopes);
    let inner = Activation { scopes: env_push(act.scopes), ..act };
    lemma_seq_keeps_scopes(stmts, 0, Value::NoValue, inner, funcs, fuel);
    let b = eval_seq(stmts, 0, Value::NoValue, inner, funcs, fuel);
    lemma_push_pop_ok(b.act.scopes);
}

proof fn lemma_loop_keeps_scopes(
    c: Ast,
    body: Seq<Ast>,
    act: Activation,
    funcs: Map<Seq<char>, FnBody>,
    fuel: nat,
)
    requires
        ledgers_ok(act.scopes),
    ensures
        well_kept(act.scopes, eval_loop(c, body, act, funcs, fuel).act.scopes),
    decreases fuel, Ast::While(Box::new(c), body), 0nat,
{
    if fuel > 0 {
        let n = Ast::While(Box::new(c), body);
        assert(*n->While_0 == c);
        assert(n->While_1 == body);
        law_eval_keeps_scopes(c, act, funcs, fuel);
        let a = eval(c, act, funcs, fuel);
        if a.result == Ok::<Value, crate::values::RuntimeError>(Value::Boolean(true)) {
            lemma_block_keeps_scopes(body, a.act, a.funcs, fuel);
            let b = eval_block(body, a.act, a.funcs, fuel);
            if !(b.result is Err || b.act.returned is Some) {
                lemma_loop_keeps_scopes(c, body, b.act, b.funcs, (fuel - 1) as nat);
            }
        }
    }
}

} // verus!
