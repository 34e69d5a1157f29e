//! Fuel only bounds an evaluation: where an evaluation ends without running
//! out of fuel, every larger amount of fuel gives the same outcome.

use vstd::prelude::*;
use crate::ast::Ast;
use crate::semantics::{
    all_defs, define_all, enter, env_write_target, eval, eval_args, eval_block, eval_call,
    eval_loop, eval_seq, run_program, Activation, FnBody,
};
use crate::values::{RuntimeError, Value};

verus! {

/// Whether an outcome is that of running out of fuel.
pub open spec fn out_of_fuel<T>(r: Result<T, RuntimeError>) -> bool {
    r matches Err(e) && e == RuntimeError::OutOfFuel
}

/// An evaluation that ends without running out of fuel has the same result
/// and leaves the same state with any larger amount of fuel.
pub proof fn law_more_fuel(
    node: Ast,
    act: Activation,
    funcs: Map<Seq<char>, FnBody>,
    fuel: nat,
    more: nat,
)
    requires
        fuel <= more,
        !out_of_fuel(eval(node, act, funcs, fuel).result),
    ensures
        eval(node, act, funcs, more) == eval(node, act, funcs, fuel),
    decreases fuel, node, 1nat,
{
    match node {
        Ast::Op(l, op, r) => {
            law_more_fuel(*l, act, funcs, fuel, more);
            let a = eval(*l, act, funcs, fuel);
            if a.result is Ok {
                law_more_fuel(*r, a.act, a.funcs, fuel, more);
            }
        },
        Ast::UnaryOp(op, e) => {
            if op is Ref || op is MutRef || op is UnarySub || op is Not {
                law_more_fuel(*e, act, funcs, fuel, more);
            }
        },
        Ast::Declaration(_, _, _, init) => {
            match init {
                Some(e) => {
                    law_more_fuel(*e, act, funcs, fuel, more);
                },
                None => {},
            }
        },
        Ast::Assign(_, e) => {
            law_more_fuel(*e, act, funcs, fuel, more);
        },
        Ast::WriteByRef(_, name, e) => {
            if env_write_target(act.scopes, name) is Ok {
                law_more_fuel(*e, act, funcs, fuel, more);
            }
        },
        Ast::While(c, body) => {
            lemma_loop_more_fuel(*c, body, act, funcs, fuel, more);
        },
        Ast::IfStmt(c, body) => {
            law_more_fuel(*c, act, funcs, fuel, more);
            let a = eval(*c, act, funcs, fuel);
            if a.result == Ok::<Value, RuntimeError>(Value::Boolean(true)) {
                lemma_block_more_fuel(body, a.act, a.funcs, fuel, more);
            }
        },
        Ast::IfElse(c, first, second) => {
            law_more_fuel(*c, act, funcs, fuel, more);
            let a = eval(*c, act, funcs, fuel);
            if a.result == Ok::<Value, RuntimeError>(Value::Boolean(true)) {
                lemma_block_more_fuel(first, a.act, a.funcs, fuel, more);
            }
            if a.result == Ok::<Value, RuntimeError>(Value::Boolean(false)) {
                lemma_block_more_fuel(second, a.act, a.funcs, fuel, more);
            }
        },
        Ast::Return(e) => {
            match e {
                Some(e) => {
                    law_more_fuel(*e, act, funcs, fuel, more);
                },
                None => {},
            }
        },
        Ast::BlockValue(e) => {
            law_more_fuel(*e, act, funcs, fuel, more);
        },
        Ast::Call(name, args) => {
            lemma_call_more_fuel(name, args, act, funcs, fuel, more);
        },
        Ast::Program(fns) => {
            law_program_more_fuel(fns, fuel, more);
        },
        _ => {},
    }
}

/// A program that ends without running out of fuel has the same result with
/// any larger amount of fuel.
pub proof fn law_program_more_fuel(fns: Seq<Ast>, fuel: nat, more: nat)
    requires
        fuel <= more,
        !out_of_fuel(run_program(fns, fuel)),
    ensures
        run_program(fns, more) == run_program(fns, fuel),
    decreases fuel, Ast::Program(fns), 0nat,
{
    if all_defs(fns) && fuel > 0 {
        lemma_call_more_fuel(
            "main"@,
            Seq::empty(),
            Activation { scopes: Seq::empty(), returned: None },
            define_all(fns, fns.len() as int),
            (fuel - 1) as nat,
            (more - 1) as nat,
        );
    }
}

proof fn lemma_args_more_fuel(
    args: Seq<Ast>,
    i: int,
    acc: Seq<Value>,
    act: Activation,
    funcs: Map<Seq<char>, FnBody>,
    fuel: nat,
    more: nat,
)
    requires
        fuel <= more,
        !out_of_fuel(eval_args(args, i, acc, act, funcs, fuel).result),
    ensures
        eval_args(args, i, acc, act, funcs, more) == eval_args(args, i, acc, act, funcs, fuel),
    decreases fuel, args, args.len() - i,
{
    if 0 <= i < args.len() {
        law_more_fuel(args[i], act, funcs, fuel, more);
        let a = eval(args[i], act, funcs, fuel);
        if a.result is Ok {
            lemma_args_more_fuel(args, i + 1, acc.push(a.result->Ok_0), a.act, a.funcs, fuel, more);
        }
    }
}

proof fn lemma_seq_more_fuel(
    stmts: Seq<Ast>,
    i: int,
    last: Value,
    act: Activation,
    funcs: Map<Seq<char>, FnBody>,
    fuel: nat,
    more: nat,
)
    requires
        fuel <= more,
        !out_of_fuel(eval_seq(stmts, i, last, act, funcs, fuel).result),
    ensures
        eval_seq(stmts, i, last, act, funcs, more) == eval_seq(stmts, i, last, act, funcs, fuel),
    decreases fuel, stmts, stmts.len() - i,
{
    if 0 <= i < stmts.len() && act.returned is None {
        law_more_fuel(stmts[i], act, funcs, fuel, more);
        let a = eval(stmts[i], act, funcs, fuel);
        if a.result is Ok {
            lemma_seq_more_fuel(stmts, i + 1, a.result->Ok_0, a.act, a.funcs, fuel, more);
        }
    }
}

proof fn lemma_block_more_fuel(
    stmts: Seq<Ast>,
    act: Activation,
    funcs: Map<Seq<char>, FnBody>,
    fuel: nat,
    more: nat,
)
    requires
        fuel <= more,
        !out_of_fuel(eval_block(stmts, act, funcs, fuel).result),
    ensures
        eval_block(stmts, act, funcs, more) == eval_block(stmts, act, funcs, fuel),
    decreases fuel, stmts, stmts.len() + 1,
{
    lemma_seq_more_fuel(
        stmts,
        0,
        Value::NoValue,
        Activation { scopes: crate::scope::env_push(act.scopes), ..act },
        funcs,
        fuel,
        more,
    );
}

proof fn lemma_loop_more_fuel(
    c: Ast,
    body: Seq<Ast>,
    act: Activation,
    funcs: Map<Seq<char>, FnBody>,
    fuel: nat,
    more: nat,
)
    requires
        fuel <= more,
        !out_of_fuel(eval_loop(c, body, act, funcs, fuel).result),
    ensures
        eval_loop(c, body, act, funcs, more) == eval_loop(c, body, act, funcs, fuel),
    decreases fuel, Ast::While(Box::new(c), body), 0nat,
{
    if fuel > 0 {
        let n = Ast::While(Box::new(c), body);
        assert(*n->While_0 == c);
        assert(n->While_1 == body);
        law_more_fuel(c, act, funcs, fuel, more);
        let a = eval(c, act, funcs, fuel);
        if a.result == Ok::<Value, RuntimeError>(Value::Boolean(true)) {
            lemma_block_more_fuel(body, a.act, a.funcs, fuel, more);
            let b = eval_block(body, a.act, a.funcs, fuel);
            if !(b.result is Err || b.act.returned is Some) {
                lemma_loop_more_fuel(c, body, b.act, b.funcs, (fuel - 1) as nat, (more - 1) as nat);
            }
        }
    }
}

proof fn lemma_call_more_fuel(
    name: Seq<char>,
    args: Seq<Ast>,
    act: Activation,
    funcs: Map<Seq<char>, FnBody>,
    fuel: nat,
    more: nat,
)
    requires
        fuel <= more,
        !out_of_fuel(eval_call(name, args, act, funcs, fuel).result),
    ensures
        eval_call(name, args, act, funcs, more) == eval_call(name, args, act, funcs, fuel),
    decreases fuel, Ast::Call(name, args), 0nat,
{
    let n = Ast::Call(name, args);
    assert(n->Call_1 == args);
    lemma_args_more_fuel(args, 0, Seq::empty(), act, funcs, fuel, more);
    let a = eval_args(args, 0, Seq::empty(), act, funcs, fuel);
    match a.result {
        Ok(values) => {
            if a.funcs.contains_key(name) && fuel > 0 {
                let def = a.funcs[name];
                match enter(def.params, args, values, a.act.scopes) {
                    Ok(scopes) => {
                        lemma_seq_more_fuel(
                            def.body,
                            0,
                            Value::NoValue,
                            Activation { scopes, returned: None },
                            a.funcs,
                            (fuel - 1) as nat,
                            (more - 1) as nat,
                        );
                    },
                    Err(_) => {},
                }
            }
        },
        Err(_) => {},
    }
}

} // verus!
