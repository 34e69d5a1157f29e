//! The typing rules, as a function from a syntax tree, an environment and a
//! function table to a type or an error and the state that the check leaves.

use vstd::prelude::*;
use crate::ast::{Ast, Opcode};
use crate::scope::{env_declare, env_lookup, env_pop, env_push};
use crate::types::{FnSig, TypeError, Types, VarInfo};

verus! {

/// The outcome of checking one node.
pub ghost struct Checked {
    pub result: Result<Types, TypeError>,
    pub env: Seq<Map<Seq<char>, VarInfo>>,
    pub funcs: Map<Seq<char>, FnSig>,
}

/// The outcome of checking a list of nodes from left to right: the type of
/// each, or the first error.
pub ghost struct CheckedList {
    pub result: Result<Seq<Types>, TypeError>,
    pub env: Seq<Map<Seq<char>, VarInfo>>,
    pub funcs: Map<Seq<char>, FnSig>,
}

/// The outcome of checking a function definition.
pub ghost struct CheckedDef {
    pub result: Result<Types, TypeError>,
    pub funcs: Map<Seq<char>, FnSig>,
}

/// The type that an annotation of a declaration names.
pub open spec fn annotation_type(s: Seq<char>) -> Option<Types> {
    if s == ": i32"@ {
        Some(Types::Number)
    } else if s == ": bool"@ {
        Some(Types::Boolean)
    } else if s == ": &i32"@ {
        Some(Types::Ref(Box::new(Types::Number)))
    } else if s == ": &bool"@ {
        Some(Types::Ref(Box::new(Types::Boolean)))
    } else {
        None
    }
}

/// The type that a declaration asks for: `Unknown` without an annotation.
pub open spec fn declared_type(ann: Option<Seq<char>>) -> Option<Types> {
    match ann {
        None => Some(Types::Unknown),
        Some(s) => annotation_type(s),
    }
}

/// The type that an annotation of a parameter names.
pub open spec fn param_type(s: Seq<char>) -> Option<Types> {
    if s == ": &mut i32"@ {
        Some(Types::MutRef(Box::new(Types::Number)))
    } else if s == ": &mut bool"@ {
        Some(Types::MutRef(Box::new(Types::Boolean)))
    } else {
        annotation_type(s)
    }
}

/// The return type that a function definition asks for: `Unknown`, to be
/// inferred from the body, without an annotation.
pub open spec fn return_type(ann: Option<Seq<char>>) -> Option<Types> {
    match ann {
        None => Some(Types::Unknown),
        Some(s) => if s == "i32"@ {
            Some(Types::Number)
        } else if s == "bool"@ {
            Some(Types::Boolean)
        } else if s == "()"@ {
            Some(Types::UnitType)
        } else if s == "&i32"@ {
            Some(Types::Ref(Box::new(Types::Number)))
        } else if s == "&bool"@ {
            Some(Types::Ref(Box::new(Types::Boolean)))
        } else {
            None
        },
    }
}

/// The type of `a op b` for operands of types `lt` and `rt`.
pub open spec fn binary_type(op: Opcode, lt: Types, rt: Types) -> Result<Types, TypeError> {
    match op {
        Opcode::Add | Opcode::Sub | Opcode::Mul | Opcode::Div | Opcode::Mod => {
            if lt is Number && rt is Number {
                Ok(Types::Number)
            } else {
                Err(TypeError::TypeMismatch)
            }
        },
        Opcode::Less | Opcode::LessOrEq | Opcode::Greater | Opcode::GreaterorEq => {
            if lt is Number && rt is Number {
                Ok(Types::Boolean)
            } else {
                Err(TypeError::TypeMismatch)
            }
        },
        Opcode::Equals | Opcode::Neq => {
            if (lt is Number || lt is Boolean) && lt.agrees(rt) {
                Ok(Types::Boolean)
            } else {
                Err(TypeError::TypeMismatch)
            }
        },
        Opcode::And | Opcode::Or => {
            if lt is Boolean && rt is Boolean {
                Ok(Types::Boolean)
            } else {
                Err(TypeError::TypeMismatch)
            }
        },
        _ => Err(TypeError::Malformed),
    }
}

/// The type of `op e` for an operand of type `t`; `is_name` says whether the
/// operand is a bare identifier.
pub open spec fn unary_type(op: Opcode, t: Types, is_name: bool) -> Result<Types, TypeError> {
    match op {
        Opcode::UnarySub => if t is Number {
            Ok(Types::Number)
        } else {
            Err(TypeError::TypeMismatch)
        },
        Opcode::Not => if t is Boolean {
            Ok(Types::Boolean)
        } else {
            Err(TypeError::TypeMismatch)
        },
        Opcode::Ref => if is_name {
            Ok(Types::Ref(Box::new(t)))
        } else {
            Err(TypeError::TypeMismatch)
        },
        Opcode::MutRef => if is_name {
            Ok(Types::MutRef(Box::new(t)))
        } else {
            Err(TypeError::TypeMismatch)
        },
        Opcode::DeRef => match t {
            Types::Ref(inner) => Ok(*inner),
            Types::MutRef(inner) => Ok(*inner),
            _ => Err(TypeError::NotAReference),
        },
        _ => Err(TypeError::Malformed),
    }
}

/// The type of a block whose statements have the types `ts`: that of its
/// trailing value, or `UnitType` where it has none.
pub open spec fn block_type(stmts: Seq<Ast>, ts: Seq<Types>) -> Types {
    if stmts.len() > 0 && stmts.last() is BlockValue && ts.len() == stmts.len() {
        ts.last()
    } else {
        Types::UnitType
    }
}

/// Whether the arguments' types agree with the parameters', one by one.
pub open spec fn args_agree(ts: Seq<Types>, ps: Seq<Types>) -> bool {
    &&& ts.len() == ps.len()
    &&& forall|i: int| 0 <= i < ts.len() ==> (#[trigger] ts[i]).agrees(ps[i])
}

/// Whether every node is a parameter definition with a known annotation.
pub open spec fn params_ok(params: Seq<Ast>) -> bool {
    forall|i: int|
        0 <= i < params.len() ==> (#[trigger] params[i] matches Ast::ParamDef(_, ann)
            && param_type(ann) is Some)
}

/// The type of parameter `p`.
pub open spec fn param_type_of(p: Ast) -> Types {
    match p {
        Ast::ParamDef(_, ann) => match param_type(ann) {
            Some(t) => t,
            None => Types::Unknown,
        },
        _ => Types::Unknown,
    }
}

/// The name of parameter `p`.
pub open spec fn param_name_of(p: Ast) -> Seq<char> {
    match p {
        Ast::ParamDef(name, _) => name,
        _ => Seq::empty(),
    }
}

/// The types of the parameters, in order.
pub open spec fn param_types(params: Seq<Ast>) -> Seq<Types> {
    Seq::new(params.len(), |i: int| param_type_of(params[i]))
}

/// The environment of a function body after its first `n` parameters were
/// bound, each as a mutable variable.
pub open spec fn bind_params(params: Seq<Ast>, n: int) -> Seq<Map<Seq<char>, VarInfo>>
    decreases n,
{
    if n <= 0 {
        Seq::empty()
    } else {
        env_declare(
            bind_params(params, n - 1),
            param_name_of(params[n - 1]),
            VarInfo { t: param_type_of(params[n - 1]), mutable: true },
        )
    }
}

/// Whether statement `k` of a function body yields the function's result: a
/// `return`, a trailing value, or an `if`/`else` in last position.
pub open spec fn yields_result(body: Seq<Ast>, k: int) -> bool {
    body[k] is Return || body[k] is BlockValue || (body[k] is IfElse && k == body.len() - 1)
}

/// The last of the first `n` statements that yields the function's result.
pub open spec fn last_result(body: Seq<Ast>, n: int) -> Option<int>
    decreases n,
{
    if n <= 0 {
        None
    } else if yields_result(body, n - 1) {
        Some(n - 1)
    } else {
        last_result(body, n - 1)
    }
}

/// The type that a function body yields, given the types `ts` of its
/// statements: that of its last result-yielding statement, with which all
/// the others must agree, or `UnitType` where it has none.
pub open spec fn body_type(body: Seq<Ast>, ts: Seq<Types>) -> Result<Types, TypeError> {
    match last_result(body, body.len() as int) {
        None => Ok(Types::UnitType),
        Some(last) => if forall|k: int|
            0 <= k < body.len() && yields_result(body, k) ==> (#[trigger] ts[k]).agrees(ts[last]) {
            Ok(ts[last])
        } else {
            Err(TypeError::ReturnTypeMismatch)
        },
    }
}

/// The return type of a function that declares `declared` and whose body
/// yields `found`.
pub open spec fn settle_return(declared: Types, found: Types) -> Result<Types, TypeError> {
    if declared is Unknown {
        Ok(found)
    } else if declared.agrees(found) {
        Ok(declared)
    } else {
        Err(TypeError::ReturnTypeMismatch)
    }
}

/// Whether every node is a function definition whose signature can be read.
pub open spec fn defs_ok(fns: Seq<Ast>) -> bool {
    forall|i: int|
        0 <= i < fns.len() ==> (#[trigger] fns[i] matches Ast::FnDef(_, params, ret, _)
            && params_ok(params) && return_type(ret) is Some)
}

/// The declared signature of a function definition.
pub open spec fn declared_sig(f: Ast) -> FnSig {
    match f {
        Ast::FnDef(_, params, ret, _) => FnSig {
            ret: match return_type(ret) {
                Some(t) => t,
                None => Types::Unknown,
            },
            params: param_types(params),
        },
        _ => FnSig { ret: Types::Unknown, params: Seq::empty() },
    }
}

/// The name of a function definition.
pub open spec fn def_name(f: Ast) -> Seq<char> {
    match f {
        Ast::FnDef(name, _, _, _) => name,
        _ => Seq::empty(),
    }
}

/// The function table after the declared signatures of the first `n`
/// definitions were registered in order; a later one replaces an earlier one
/// of the same name.
pub open spec fn register_all(fns: Seq<Ast>, n: int) -> Map<Seq<char>, FnSig>
    decreases n,
{
    if n <= 0 {
        Map::empty()
    } else {
        register_all(fns, n - 1).insert(def_name(fns[n - 1]), declared_sig(fns[n - 1]))
    }
}

/// The type of a call of `name` with arguments of the types `ts`.
pub open spec fn call_type(funcs: Map<Seq<char>, FnSig>, name: Seq<char>, ts: Seq<Types>) -> Result<
    Types,
    TypeError,
> {
    if !funcs.contains_key(name) {
        Err(TypeError::UnknownFunction)
    } else if args_agree(ts, funcs[name].params) {
        Ok(funcs[name].ret)
    } else {
        Err(TypeError::ArityOrTypeMismatch)
    }
}

/// Checks the nodes from position `i` on, left to right, each in the state
/// that the one before left; `acc` holds the types found so far.
pub open spec fn check_seq(
    nodes: Seq<Ast>,
    i: int,
    acc: Seq<Types>,
    env: Seq<Map<Seq<char>, VarInfo>>,
    funcs: Map<Seq<char>, FnSig>,
) -> CheckedList
    decreases nodes, nodes.len() - i,
{
    if i < 0 || i >= nodes.len() {
        CheckedList { result: Ok(acc), env, funcs }
    } else {
        let a = check(nodes[i], env, funcs);
        match a.result {
            Err(e) => CheckedList { result: Err(e), env: a.env, funcs: a.funcs },
            Ok(t) => check_seq(nodes, i + 1, acc.push(t), a.env, a.funcs),
        }
    }
}

/// Checks the statements of a block in a scope of its own. The scope is left
/// again whether the check succeeds or not.
pub open spec fn check_block(
    stmts: Seq<Ast>,
    env: Seq<Map<Seq<char>, VarInfo>>,
    funcs: Map<Seq<char>, FnSig>,
) -> Checked
    decreases stmts, stmts.len() + 1,
{
    let b = check_seq(stmts, 0, Seq::empty(), env_push(env), funcs);
    Checked {
        result: match b.result {
            Err(e) => Err(e),
            Ok(ts) => Ok(block_type(stmts, ts)),
        },
        env: env_pop(b.env),
        funcs: b.funcs,
    }
}

/// The typing rules.
pub open spec fn check(node: Ast, env: Seq<Map<Seq<char>, VarInfo>>, funcs: Map<Seq<char>, FnSig>) -> Checked
    decreases node, 1nat,
{
    match node {
        Ast::Number(_) => Checked { result: Ok(Types::Number), env, funcs },
        Ast::Boolean(_) => Checked { result: Ok(Types::Boolean), env, funcs },
        Ast::ID(name) => Checked {
            result: match env_lookup(env, name) {
                Some(v) => Ok(v.t),
                None => Err(TypeError::UnboundName),
            },
            env,
            funcs,
        },
        Ast::Type(_) => Checked { result: Err(TypeError::Malformed), env, funcs },
        Ast::Op(l, op, r) => {
            let a = check(*l, env, funcs);
            match a.result {
                Err(_) => a,
                Ok(lt) => {
                    let b = check(*r, a.env, a.funcs);
                    match b.result {
                        Err(_) => b,
                        Ok(rt) => Checked { result: binary_type(op, lt, rt), env: b.env, funcs: b.funcs },
                    }
                },
            }
        },
        Ast::UnaryOp(op, e) => {
            let a = check(*e, env, funcs);
            match a.result {
                Err(_) => a,
                Ok(t) => Checked { result: unary_type(op, t, *e is ID), env: a.env, funcs: a.funcs },
            }
        },
        Ast::Declaration(name, mutable, ann, init) => match declared_type(ann) {
            None => Checked { result: Err(TypeError::Malformed), env, funcs },
            Some(left) => match init {
                None => Checked {
                    result: Ok(left),
                    env: env_declare(env, name, VarInfo { t: left, mutable }),
                    funcs,
                },
                Some(e) => {
                    let a = check(*e, env, funcs);
                    match a.result {
                        Err(_) => a,
                        Ok(right) => if left is Unknown || left.agrees(right) {
                            Checked {
                                result: Ok(right),
                                env: env_declare(a.env, name, VarInfo { t: right, mutable }),
                                funcs: a.funcs,
                            }
                        } else {
                            Checked { result: Err(TypeError::TypeMismatch), env: a.env, funcs: a.funcs }
                        },
                    }
                },
            },
        },
        Ast::Assign(name, e) => match env_lookup(env, name) {
            None => Checked { result: Err(TypeError::UnboundName), env, funcs },
            Some(v) => if !v.mutable {
                Checked { result: Err(TypeError::ImmutableTarget), env, funcs }
            } else {
                let a = check(*e, env, funcs);
                match a.result {
                    Err(_) => a,
                    Ok(right) => Checked {
                        result: if v.t is Unknown || v.t.agrees(right) {
                            Ok(right)
                        } else {
                            Err(TypeError::TypeMismatch)
                        },
                        env: a.env,
                        funcs: a.funcs,
                    },
                }
            },
        },
        Ast::WriteByRef(op, name, e) => if op != Opcode::DeRef {
            Checked { result: Err(TypeError::InvalidAssignTarget), env, funcs }
        } else {
            match env_lookup(env, name) {
                None => Checked { result: Err(TypeError::UnboundName), env, funcs },
                Some(v) => match v.t {
                    Types::MutRef(inner) => {
                        let a = check(*e, env, funcs);
                        match a.result {
                            Err(_) => a,
                            Ok(right) => Checked {
                                result: if inner.agrees(right) {
                                    Ok(Types::Unknown)
                                } else {
                                    Err(TypeError::TypeMismatch)
                                },
                                env: a.env,
                                funcs: a.funcs,
                            },
                        }
                    },
                    _ => Checked { result: Err(TypeError::InvalidAssignTarget), env, funcs },
                },
            }
        },
        Ast::While(c, body) => {
            let a = check(*c, env, funcs);
            match a.result {
                Err(_) => a,
                Ok(t) => if !(t is Boolean) {
                    Checked { result: Err(TypeError::NotABoolean), env: a.env, funcs: a.funcs }
                } else {
                    let b = check_block(body, a.env, a.funcs);
                    Checked {
                        result: match b.result {
                            Err(e) => Err(e),
                            Ok(_) => Ok(Types::UnitType),
                        },
                        env: b.env,
                        funcs: b.funcs,
                    }
                },
            }
        },
        Ast::IfStmt(c, body) => {
            let a = check(*c, env, funcs);
            match a.result {
                Err(_) => a,
                Ok(t) => if !(t is Boolean) {
                    Checked { result: Err(TypeError::NotABoolean), env: a.env, funcs: a.funcs }
                } else {
                    check_block(body, a.env, a.funcs)
                },
            }
        },
        Ast::IfElse(c, first, second) => {
            let a = check(*c, env, funcs);
            match a.result {
                Err(_) => a,
                Ok(t) => if !(t is Boolean) {
                    Checked { result: Err(TypeError::NotABoolean), env: a.env, funcs: a.funcs }
                } else {
                    let b1 = check_block(first, a.env, a.funcs);
                    match b1.result {
                        Err(_) => b1,
                        Ok(t1) => {
                            let b2 = check_block(second, b1.env, b1.funcs);
                            match b2.result {
                                Err(_) => b2,
                                Ok(t2) => Checked {
                                    result: if t1.agrees(t2) {
                                        Ok(t1)
                                    } else {
                                        Err(TypeError::BranchTypeMismatch)
                                    },
                                    env: b2.env,
                                    funcs: b2.funcs,
                                },
                            }
                        },
                    }
                },
            }
        },
        Ast::Return(e) => match e {
            None => Checked { result: Ok(Types::UnitType), env, funcs },
            Some(e) => check(*e, env, funcs),
        },
        Ast::BlockValue(e) => check(*e, env, funcs),
        Ast::Call(name, args) => if !funcs.contains_key(name) {
            Checked { result: Err(TypeError::UnknownFunction), env, funcs }
        } else {
            let a = check_seq(args, 0, Seq::empty(), env, funcs);
            match a.result {
                Err(e) => Checked { result: Err(e), env: a.env, funcs: a.funcs },
                Ok(ts) => Checked { result: call_type(a.funcs, name, ts), env: a.env, funcs: a.funcs },
            }
        },
        Ast::ParamDef(_, ann) => Checked {
            result: match param_type(ann) {
                Some(t) => Ok(t),
                None => Err(TypeError::Malformed),
            },
            env,
            funcs,
        },
        Ast::FnDef(name, params, ret, body) => {
            let d = check_def(name, params, ret, body, funcs);
            Checked { result: d.result, env, funcs: d.funcs }
        },
        Ast::Program(fns) => Checked { result: check_program(fns), env, funcs },
    }
}

/// Checks a function definition: binds the parameters in an environment of
/// the function's own, checks the body in it, settles the return type and,
/// on success, registers the signature.
pub open spec fn check_def(
    name: Seq<char>,
    params: Seq<Ast>,
    ret: Option<Seq<char>>,
    body: Seq<Ast>,
    funcs: Map<Seq<char>, FnSig>,
) -> CheckedDef
    decreases Ast::FnDef(name, params, ret, body), 0nat,
{
    match return_type(ret) {
        Some(declared) if params_ok(params) => {
            proof {
                let n = Ast::FnDef(name, params, ret, body);
                assert(n->FnDef_3 == body);
            }
            let b = check_seq(body, 0, Seq::empty(), bind_params(params, params.len() as int), funcs);
            match b.result {
                Err(e) => CheckedDef { result: Err(e), funcs: b.funcs },
                Ok(ts) => match body_type(body, ts) {
                    Err(e) => CheckedDef { result: Err(e), funcs: b.funcs },
                    Ok(found) => match settle_return(declared, found) {
                        Err(e) => CheckedDef { result: Err(e), funcs: b.funcs },
                        Ok(t) => CheckedDef {
                            result: Ok(t),
                            funcs: b.funcs.insert(name, FnSig { ret: t, params: param_types(params) }),
                        },
                    },
                },
            }
        },
        _ => CheckedDef { result: Err(TypeError::Malformed), funcs },
    }
}

/// Checks a whole program: registers the declared signature of every
/// function, checks every definition in turn, and types the call of `main`
/// without arguments that runs the program.
pub open spec fn check_program(fns: Seq<Ast>) -> Result<Types, TypeError>
    decreases fns, fns.len() + 1,
{
    if !defs_ok(fns) {
        Err(TypeError::Malformed)
    } else {
        let b = check_seq(fns, 0, Seq::empty(), Seq::empty(), register_all(fns, fns.len() as int));
        match b.result {
            Err(e) => Err(e),
            Ok(_) => call_type(b.funcs, "main"@, Seq::empty()),
        }
    }
}

} // verus!
