//! What holds of the typing rules and of the borrow ledger for every
//! program and every environment.

use vstd::prelude::*;
use crate::ast::{Ast, Opcode};
use crate::ledger::{read_access, SlotView};
use crate::scope::{env_declare, env_lookup, env_push, lemma_lookup_assign, lemma_lookup_declare};
use crate::semantics::{env_borrow, env_deref, env_update, env_write_target};
use crate::types::{FnSig, TypeError, Types, VarInfo};
use crate::typing::{annotation_type, check, check_block, check_seq};
use crate::values::{RuntimeError, Value};

verus! {

/// After the declaration `let name: T = init` has checked, the name checks
/// to the type of the initializer, which agrees with `T`, whatever the depth
/// of the enclosing scopes.
pub proof fn law_declared_type(
    name: Seq<char>,
    mutable: bool,
    ann: Seq<char>,
    init: Ast,
    env: Seq<Map<Seq<char>, VarInfo>>,
    funcs: Map<Seq<char>, FnSig>,
)
    requires
        check(Ast::Declaration(name, mutable, Some(ann), Some(Box::new(init))), env, funcs).result is Ok,
    ensures
        ({
            let d = check(Ast::Declaration(name, mutable, Some(ann), Some(Box::new(init))), env, funcs);
            let after = check(Ast::ID(name), d.env, d.funcs);
            &&& annotation_type(ann) matches Some(t)
            &&& after.result matches Ok(found)
            &&& found.agrees(t)
            &&& d.result == Ok::<Types, TypeError>(found)
            &&& check(init, env, funcs).result == Ok::<Types, TypeError>(found)
        }),
{
    let a = check(init, env, funcs);
    let found = a.result->Ok_0;
    lemma_lookup_declare(a.env, name, VarInfo { t: found, mutable }, name);
}

/// After the declaration `let name: T` without an initializer, the name
/// checks to exactly `T`.
pub proof fn law_declared_type_bare(
    name: Seq<char>,
    mutable: bool,
    ann: Seq<char>,
    env: Seq<Map<Seq<char>, VarInfo>>,
    funcs: Map<Seq<char>, FnSig>,
)
    requires
        annotation_type(ann) is Some,
    ensures
        ({
            let d = check(Ast::Declaration(name, mutable, Some(ann), None), env, funcs);
            let after = check(Ast::ID(name), d.env, d.funcs);
            &&& d.result == Ok::<Types, TypeError>(annotation_type(ann)->Some_0)
            &&& after.result == d.result
        }),
{
    let t = annotation_type(ann)->Some_0;
    lemma_lookup_declare(env, name, VarInfo { t, mutable }, name);
}

/// An arithmetic expression `a op b` checks to `Number` if and only if both
/// operands check to `Number`, `b` in the state that `a` left. It checks to
/// nothing else, and it fails where the operands' types differ.
pub proof fn law_arithmetic(
    a: Ast,
    op: Opcode,
    b: Ast,
    env: Seq<Map<Seq<char>, VarInfo>>,
    funcs: Map<Seq<char>, FnSig>,
)
    requires
        op.is_arith(),
    ensures
        ({
            let ca = check(a, env, funcs);
            let cb = check(b, ca.env, ca.funcs);
            let whole = check(Ast::Op(Box::new(a), op, Box::new(b)), env, funcs);
            &&& whole.result == Ok::<Types, TypeError>(Types::Number) <==> (ca.result == Ok::<
                Types,
                TypeError,
            >(Types::Number) && cb.result == Ok::<Types, TypeError>(Types::Number))
            &&& whole.result is Ok ==> whole.result == Ok::<Types, TypeError>(Types::Number)
            &&& (ca.result matches Ok(ta) && cb.result matches Ok(tb) && !ta.agrees(tb))
                ==> whole.result == Err::<Types, TypeError>(TypeError::TypeMismatch)
        }),
{
}

/// Whether `after` has the frames of `before`, all but the innermost
/// unchanged. An environment without frames may have got its first one.
pub open spec fn frames_kept<T>(before: Seq<Map<Seq<char>, T>>, after: Seq<Map<Seq<char>, T>>) -> bool {
    if before.len() == 0 {
        after.len() <= 1
    } else {
        after.len() == before.len() && after.drop_first() == before.drop_first()
    }
}

/// Checking a block leaves the environment exactly as it was, whether the
/// check succeeds or not: what the block declared is gone, and what it
/// shadowed is visible again.
pub proof fn law_block_restores_environment(
    stmts: Seq<Ast>,
    env: Seq<Map<Seq<char>, VarInfo>>,
    funcs: Map<Seq<char>, FnSig>,
)
    ensures
        check_block(stmts, env, funcs).env == env,
    decreases stmts, stmts.len() + 1,
{
    lemma_list_keeps_frames(stmts, 0, Seq::empty(), env_push(env), funcs);
    let b = check_seq(stmts, 0, Seq::empty(), env_push(env), funcs);
    assert(env_push(env).drop_first() =~= env);
}

/// Checking a node changes the innermost scope at most: the number of
/// scopes and every outer scope stay.
pub proof fn law_check_keeps_frames(
    node: Ast,
    env: Seq<Map<Seq<char>, VarInfo>>,
    funcs: Map<Seq<char>, FnSig>,
)
    ensures
        frames_kept(env, check(node, env, funcs).env),
    decreases node, 1nat,
{
    match node {
        Ast::Op(l, op, r) => {
            law_check_keeps_frames(*l, env, funcs);
            let a = check(*l, env, funcs);
            law_check_keeps_frames(*r, a.env, a.funcs);
        },
        Ast::UnaryOp(op, e) => {
            law_check_keeps_frames(*e, env, funcs);
        },
        Ast::Declaration(name, mutable, ann, init) => {
            match init {
                Some(e) => {
                    law_check_keeps_frames(*e, env, funcs);
                    let a = check(*e, env, funcs);
                    if a.result is Ok {
                        lemma_declare_keeps_frames(
                            a.env,
                            name,
                            VarInfo { t: a.result->Ok_0, mutable },
                        );
                    }
                },
                None => {
                    if crate::typing::declared_type(ann) is Some {
                        lemma_declare_keeps_frames(
                            env,
                            name,
                            VarInfo { t: crate::typing::declared_type(ann)->Some_0, mutable },
                        );
                    }
                },
            }
        },
        Ast::Assign(name, e) => {
            law_check_keeps_frames(*e, env, funcs);
        },
        Ast::WriteByRef(op, name, e) => {
            law_check_keeps_frames(*e, env, funcs);
        },
        Ast::While(c, body) => {
            law_check_keeps_frames(*c, env, funcs);
            let a = check(*c, env, funcs);
            law_block_restores_environment(body, a.env, a.funcs);
        },
        Ast::IfStmt(c, body) => {
            law_check_keeps_frames(*c, env, funcs);
            let a = check(*c, env, funcs);
            law_block_restores_environment(body, a.env, a.funcs);
        },
        Ast::IfElse(c, first, second) => {
            law_check_keeps_frames(*c, env, funcs);
            let a = check(*c, env, funcs);
            law_block_restores_environment(first, a.env, a.funcs);
            let b = check_block(first, a.env, a.funcs);
            law_block_restores_environment(second, b.env, b.funcs);
        },
        Ast::Return(e) => {
            match e {
                Some(e) => {
                    law_check_keeps_frames(*e, env, funcs);
                },
                None => {},
            }
        },
        Ast::BlockValue(e) => {
            law_check_keeps_frames(*e, env, funcs);
        },
        Ast::Call(name, args) => {
            lemma_list_keeps_frames(args, 0, Seq::empty(), env, funcs);
        },
        _ => {},
    }
}

/// Checking a list of nodes changes the innermost scope at most.
proof fn lemma_list_keeps_frames(
    nodes: Seq<Ast>,
    i: int,
    acc: Seq<Types>,
    env: Seq<Map<Seq<char>, VarInfo>>,
    funcs: Map<Seq<char>, FnSig>,
)
    ensures
        frames_kept(env, check_seq(nodes, i, acc, env, funcs).env),
    decreases nodes, nodes.len() - i,
{
    if 0 <= i < nodes.len() {
        law_check_keeps_frames(nodes[i], env, funcs);
        let a = check(nodes[i], env, funcs);
        if a.result is Ok {
            lemma_list_keeps_frames(nodes, i + 1, acc.push(a.result->Ok_0), a.env, a.funcs);
        }
    }
}

/// A declaration changes the innermost scope only.
proof fn lemma_declare_keeps_frames<T>(env: Seq<Map<Seq<char>, T>>, name: Seq<char>, slot: T)
    ensures
        frames_kept(env, env_declare(env, name, slot)),
{
    if env.len() > 0 {
        assert(env_declare(env, name, slot).drop_first() =~= env.drop_first());
    }
}

/// After `b = &mut x` and then `c = &x`, reading through `b` fails: its
/// exclusive borrow coexists with another access.
pub proof fn law_exclusive_then_shared(
    env: Seq<Map<Seq<char>, SlotView>>,
    x: Seq<char>,
    b: Seq<char>,
    c: Seq<char>,
)
    requires
        env_lookup(env, x) is Some,
        b != x,
        c != x,
        b != c,
    ensures
        env_deref(env_borrow(env_borrow(env, b, x, true), c, x, false), b) == Err::<
            Value,
            RuntimeError,
        >(RuntimeError::BorrowConflict),
        env_deref(env_borrow(env_borrow(env, b, x, true), c, x, false), c) == Ok::<
            Value,
            RuntimeError,
        >(env_lookup(env, x)->Some_0.value),
{
    let sx = env_lookup(env, x)->Some_0;
    lemma_borrow(env, b, x, true);
    let env1 = env_borrow(env, b, x, true);
    lemma_borrow(env1, c, x, false);
    let env2 = env_borrow(env1, c, x, false);
    lemma_borrow_other(env1, c, x, false, b);
    let bs = env_lookup(env2, x)->Some_0.borrows;
    assert(bs.len() == 2);
    assert(read_access(bs, b, 1) == Err::<(), RuntimeError>(RuntimeError::BorrowConflict));
    assert(read_access(bs, c, 0) == Ok::<(), RuntimeError>(()));
}

/// After `b = &x` and then `c = &x`, reading through either gives the value
/// of `x`.
pub proof fn law_shared_borrows(
    env: Seq<Map<Seq<char>, SlotView>>,
    x: Seq<char>,
    b: Seq<char>,
    c: Seq<char>,
)
    requires
        env_lookup(env, x) is Some,
        b != x,
        c != x,
        b != c,
    ensures
        env_deref(env_borrow(env_borrow(env, b, x, false), c, x, false), b) == Ok::<
            Value,
            RuntimeError,
        >(env_lookup(env, x)->Some_0.value),
        env_deref(env_borrow(env_borrow(env, b, x, false), c, x, false), c) == Ok::<
            Value,
            RuntimeError,
        >(env_lookup(env, x)->Some_0.value),
{
    lemma_borrow(env, b, x, false);
    let env1 = env_borrow(env, b, x, false);
    lemma_borrow(env1, c, x, false);
    let env2 = env_borrow(env1, c, x, false);
    lemma_borrow_other(env1, c, x, false, b);
    let bs = env_lookup(env2, x)->Some_0.borrows;
    assert(bs.len() >= 2);
    assert(read_access(bs, b, 1) == Ok::<(), RuntimeError>(()));
    assert(read_access(bs, c, 0) == Ok::<(), RuntimeError>(()));
}

/// After `y = &mut x`, a write through `y` is accepted and changes `x`: a
/// later read of `x` gives the value written.
pub proof fn law_write_through(
    env: Seq<Map<Seq<char>, SlotView>>,
    x: Seq<char>,
    y: Seq<char>,
    v: Value,
)
    requires
        env_lookup(env, x) is Some,
        y != x,
    ensures
        env_write_target(env_borrow(env, y, x, true), y) == Ok::<Seq<char>, RuntimeError>(x),
        env_lookup(env_update(env_borrow(env, y, x, true), x, v), x) matches Some(s) && s.value == v,
{
    lemma_borrow(env, y, x, true);
    let env1 = env_borrow(env, y, x, true);
    let s = env_lookup(env1, x)->Some_0;
    lemma_lookup_assign(env1, x, SlotView { value: v, ..s }, x);
}

/// After `y = &mut x` and then `z = &mut x`, a write through `y` is
/// rejected: `y` is no longer the unique exclusive borrow of `x`.
pub proof fn law_second_exclusive_borrow(
    env: Seq<Map<Seq<char>, SlotView>>,
    x: Seq<char>,
    y: Seq<char>,
    z: Seq<char>,
)
    requires
        env_lookup(env, x) is Some,
        y != x,
        z != x,
        y != z,
    ensures
        env_write_target(env_borrow(env_borrow(env, y, x, true), z, x, true), y) == Err::<
            Seq<char>,
            RuntimeError,
        >(RuntimeError::WriteRejected),
        env_write_target(env_borrow(env_borrow(env, y, x, true), z, x, true), z) == Ok::<
            Seq<char>,
            RuntimeError,
        >(x),
{
    lemma_borrow(env, y, x, true);
    let env1 = env_borrow(env, y, x, true);
    lemma_borrow(env1, z, x, true);
    lemma_borrow_other(env1, z, x, true, y);
}

/// What a borrow leaves: the borrower resolves to a reference to the target,
/// and the target keeps its value and has the borrow in its ledger.
pub proof fn lemma_borrow(
    env: Seq<Map<Seq<char>, SlotView>>,
    borrower: Seq<char>,
    target: Seq<char>,
    exclusive: bool,
)
    requires
        env_lookup(env, target) is Some,
        borrower != target,
    ensures
        ({
            let after = env_borrow(env, borrower, target, exclusive);
            let before = env_lookup(env, target)->Some_0;
            &&& env_lookup(after, borrower) == Some(crate::ledger::reference_slot(target))
            &&& env_lookup(after, target) == Some(
                SlotView {
                    borrows: crate::ledger::ledger_add(before.borrows, borrower, exclusive),
                    ..before
                },
            )
        }),
{
    let declared = env_declare(env, borrower, crate::ledger::reference_slot(target));
    lemma_lookup_declare(env, borrower, crate::ledger::reference_slot(target), target);
    lemma_lookup_declare(env, borrower, crate::ledger::reference_slot(target), borrower);
    let before = env_lookup(env, target)->Some_0;
    let slot = SlotView {
        borrows: crate::ledger::ledger_add(before.borrows, borrower, exclusive),
        ..before
    };
    lemma_lookup_assign(declared, target, slot, target);
    lemma_lookup_assign(declared, target, slot, borrower);
}

/// A borrow leaves every name but the borrower and the target as it was.
pub proof fn lemma_borrow_other(
    env: Seq<Map<Seq<char>, SlotView>>,
    borrower: Seq<char>,
    target: Seq<char>,
    exclusive: bool,
    other: Seq<char>,
)
    requires
        other != borrower,
        other != target,
    ensures
        env_lookup(env_borrow(env, borrower, target, exclusive), other) == env_lookup(env, other),
{
    let declared = env_declare(env, borrower, crate::ledger::reference_slot(target));
    lemma_lookup_declare(env, borrower, crate::ledger::reference_slot(target), other);
    match env_lookup(declared, target) {
        Some(s) => {
            lemma_lookup_assign(
                declared,
                target,
                SlotView {
                    borrows: crate::ledger::ledger_add(s.borrows, borrower, exclusive),
                    ..s
                },
                other,
            );
        },
        None => {},
    }
}

} // verus!
