use minilang::ast::{Node, Opcode};
use minilang::typechecker::{
    init_context, init_funcs, type_check, type_check_assign, type_check_call, type_check_fn_def,
    type_check_if, type_check_if_else, type_check_let, type_check_op, type_check_param_def,
    type_check_program, type_check_return, type_check_unary_op, type_check_while,
    type_check_write_ref, Context, FnContext, Types, VarInfo,
};
use minilang::types::TypeError;

fn num(n: i32) -> Box<Node> {
    Box::new(Node::Number(n))
}

fn boolean(b: bool) -> Box<Node> {
    Box::new(Node::Boolean(b))
}

fn id(s: &str) -> Box<Node> {
    Box::new(Node::ID(s.to_string()))
}

fn op(l: Box<Node>, o: Opcode, r: Box<Node>) -> Box<Node> {
    Box::new(Node::Op(l, o, r))
}

fn unary(o: Opcode, e: Box<Node>) -> Box<Node> {
    Box::new(Node::UnaryOp(o, e))
}

fn value(e: Box<Node>) -> Box<Node> {
    Box::new(Node::BlockValue(e))
}

fn decl(name: &str, mutable: bool, ann: Option<&str>, init: Option<Box<Node>>) -> Box<Node> {
    Box::new(Node::Declaration(name.to_string(), mutable, ann.map(|s| s.to_string()), init))
}

fn assign(name: &str, e: Box<Node>) -> Box<Node> {
    Box::new(Node::Assign(name.to_string(), e))
}

fn call(name: &str, args: Vec<Box<Node>>) -> Box<Node> {
    Box::new(Node::Call(name.to_string(), args))
}

fn param(name: &str, ann: &str) -> Box<Node> {
    Box::new(Node::ParamDef(name.to_string(), ann.to_string()))
}

fn func(name: &str, params: Vec<Box<Node>>, ret: Option<&str>, body: Vec<Box<Node>>) -> Box<Node> {
    Box::new(Node::FnDef(name.to_string(), params, ret.map(|s| s.to_string()), body))
}

fn check(node: &Node) -> Result<Types, TypeError> {
    let mut c = init_context();
    let mut f = init_funcs();
    type_check(node, &mut c, &mut f)
}

fn shared(t: Types) -> Types {
    Types::Ref(Box::new(t))
}

fn exclusive(t: Types) -> Types {
    Types::MutRef(Box::new(t))
}

#[test]
fn literals_have_fixed_types() {
    assert_eq!(check(&Node::Number(7)), Ok(Types::Number));
    assert_eq!(check(&Node::Boolean(false)), Ok(Types::Boolean));
}

#[test]
fn type_ids_order_the_variants() {
    assert_eq!(Types::Unknown.get_type_id(), 0);
    assert_eq!(Types::Boolean.get_type_id(), 1);
    assert_eq!(Types::Number.get_type_id(), 2);
    assert_eq!(Types::UnitType.get_type_id(), 3);
    assert_eq!(shared(Types::Number).get_type_id(), 4);
    assert_eq!(exclusive(Types::Boolean).get_type_id(), 5);
    assert!(shared(Types::Number).same(&shared(Types::Boolean)));
    assert!(!shared(Types::Number).same(&exclusive(Types::Number)));
}

#[test]
fn identifier_yields_the_slot_type() {
    assert_eq!(check(&id("A")), Ok(Types::Number));
    assert_eq!(check(&id("D")), Ok(Types::Boolean));
    assert_eq!(check(&id("nowhere")), Err(TypeError::UnboundName));
}

#[test]
fn sample_context_holds_three_variables() {
    let c = init_context();
    assert_eq!(c.get(&"A".to_string()), Some(VarInfo { t: Types::Number, mutable: true }));
    assert_eq!(c.get(&"B".to_string()), Some(VarInfo { t: Types::Number, mutable: false }));
    assert_eq!(c.get(&"D".to_string()), Some(VarInfo { t: Types::Boolean, mutable: true }));
    assert_eq!(c.get(&"C".to_string()), None);
}

#[test]
fn arithmetic_on_numbers() {
    let mut c = init_context();
    let mut f = init_funcs();
    assert_eq!(
        type_check_op(&Node::Number(14), &Opcode::Add, &Node::Number(13), &mut c, &mut f),
        Ok(Types::Number)
    );
    let n1 = op(num(13), Opcode::Add, num(13));
    let n2 = op(num(15), Opcode::Sub, num(14));
    assert_eq!(type_check_op(&n1, &Opcode::Add, &n2, &mut c, &mut f), Ok(Types::Number));
    assert_eq!(type_check_op(&n1, &Opcode::Mod, &id("A"), &mut c, &mut f), Ok(Types::Number));
    assert_eq!(
        type_check_op(&n1, &Opcode::Mod, &id("D"), &mut c, &mut f),
        Err(TypeError::TypeMismatch)
    );
    assert_eq!(
        type_check_op(&n1, &Opcode::And, &n2, &mut c, &mut f),
        Err(TypeError::TypeMismatch)
    );
}

#[test]
fn arithmetic_needs_numbers_on_both_sides() {
    for o in [Opcode::Add, Opcode::Sub, Opcode::Mul, Opcode::Div, Opcode::Mod] {
        assert_eq!(check(&op(num(1), o, num(2))), Ok(Types::Number));
        assert_eq!(check(&op(num(1), o, boolean(true))), Err(TypeError::TypeMismatch));
        assert_eq!(check(&op(boolean(true), o, num(1))), Err(TypeError::TypeMismatch));
        assert_eq!(check(&op(boolean(true), o, boolean(false))), Err(TypeError::TypeMismatch));
    }
}

#[test]
fn relational_operators_compare_numbers() {
    for o in [Opcode::Less, Opcode::LessOrEq, Opcode::Greater, Opcode::GreaterorEq] {
        assert_eq!(check(&op(num(1), o, num(2))), Ok(Types::Boolean));
        assert_eq!(check(&op(boolean(true), o, boolean(false))), Err(TypeError::TypeMismatch));
    }
}

#[test]
fn equality_takes_numbers_or_booleans() {
    for o in [Opcode::Equals, Opcode::Neq] {
        assert_eq!(check(&op(num(1), o, num(2))), Ok(Types::Boolean));
        assert_eq!(check(&op(boolean(true), o, boolean(false))), Ok(Types::Boolean));
        assert_eq!(check(&op(num(1), o, boolean(false))), Err(TypeError::TypeMismatch));
        let r = unary(Opcode::Ref, id("A"));
        let s = unary(Opcode::Ref, id("A"));
        assert_eq!(check(&op(r, o, s)), Err(TypeError::TypeMismatch));
    }
}

#[test]
fn logical_operators_take_booleans() {
    let n3 = op(num(13), Opcode::Neq, num(56));
    assert_eq!(check(&op(n3, Opcode::And, boolean(true))), Ok(Types::Boolean));
    assert_eq!(check(&op(num(5), Opcode::And, num(6))), Err(TypeError::TypeMismatch));
    // D == false && 14 < 17 || A >= B
    let left = op(op(id("D"), Opcode::Equals, boolean(false)), Opcode::And, op(num(14), Opcode::Less, num(17)));
    let whole = op(left, Opcode::Or, op(id("A"), Opcode::GreaterorEq, id("B")));
    assert_eq!(check(&whole), Ok(Types::Boolean));
}

#[test]
fn unary_operator_in_a_binary_node_is_malformed() {
    assert_eq!(check(&op(boolean(true), Opcode::Not, boolean(true))), Err(TypeError::Malformed));
    assert_eq!(check(&unary(Opcode::Add, num(1))), Err(TypeError::Malformed));
    assert_eq!(check(&Node::Type(": i32".to_string())), Err(TypeError::Malformed));
}

#[test]
fn first_operand_error_comes_first() {
    let bad = op(id("nowhere"), Opcode::Add, op(num(1), Opcode::Add, boolean(true)));
    assert_eq!(check(&bad), Err(TypeError::UnboundName));
}

#[test]
fn negation_and_not() {
    // -5 + 13 % (-A + -12)
    let inner = op(unary(Opcode::UnarySub, id("A")), Opcode::Add, unary(Opcode::UnarySub, num(12)));
    let whole = op(unary(Opcode::UnarySub, num(5)), Opcode::Add, op(num(13), Opcode::Mod, inner));
    assert_eq!(check(&whole), Ok(Types::Number));
    // !D && D == !false
    let right = op(id("D"), Opcode::Equals, unary(Opcode::Not, boolean(false)));
    assert_eq!(check(&op(unary(Opcode::Not, id("D")), Opcode::And, right)), Ok(Types::Boolean));
    let mut c = init_context();
    let mut f = init_funcs();
    assert_eq!(
        type_check_unary_op(&Node::Boolean(true), &Opcode::UnarySub, &mut c, &mut f),
        Err(TypeError::TypeMismatch)
    );
    assert_eq!(
        type_check_unary_op(&Node::Number(1), &Opcode::Not, &mut c, &mut f),
        Err(TypeError::TypeMismatch)
    );
}

#[test]
fn references_wrap_the_identifier_type() {
    assert_eq!(check(&unary(Opcode::Ref, id("A"))), Ok(shared(Types::Number)));
    assert_eq!(check(&unary(Opcode::MutRef, id("D"))), Ok(exclusive(Types::Boolean)));
    assert_eq!(check(&unary(Opcode::Ref, num(5))), Err(TypeError::TypeMismatch));
    assert_eq!(check(&unary(Opcode::MutRef, id("nowhere"))), Err(TypeError::UnboundName));
}

#[test]
fn dereference_unwraps_a_reference() {
    assert_eq!(check(&unary(Opcode::DeRef, unary(Opcode::Ref, id("A")))), Ok(Types::Number));
    assert_eq!(check(&unary(Opcode::DeRef, unary(Opcode::MutRef, id("D")))), Ok(Types::Boolean));
    assert_eq!(check(&unary(Opcode::DeRef, id("A"))), Err(TypeError::NotAReference));
}

#[test]
fn declaration_statements() {
    let mut c = init_context();
    let mut f = init_funcs();
    assert_eq!(type_check(&decl("x", false, None, None), &mut c, &mut f), Ok(Types::Unknown));
    assert_eq!(type_check(&decl("asd", false, Some(": i32"), None), &mut c, &mut f), Ok(Types::Number));
    assert_eq!(c.get(&"asd".to_string()), Some(VarInfo { t: Types::Number, mutable: false }));
    assert_eq!(type_check(&decl("y", false, None, Some(num(17))), &mut c, &mut f), Ok(Types::Number));
    assert_eq!(
        type_check(&decl("x", false, Some(": bool"), Some(boolean(true))), &mut c, &mut f),
        Ok(Types::Boolean)
    );
    assert_eq!(c.get(&"x".to_string()), Some(VarInfo { t: Types::Boolean, mutable: false }));
    let sum = op(num(34), Opcode::Add, id("A"));
    assert_eq!(type_check(&decl("x", true, Some(": i32"), Some(sum)), &mut c, &mut f), Ok(Types::Number));
    assert_eq!(c.get(&"x".to_string()), Some(VarInfo { t: Types::Number, mutable: true }));
    assert_eq!(
        type_check(&decl("z", false, Some(": i32"), Some(boolean(true))), &mut c, &mut f),
        Err(TypeError::TypeMismatch)
    );
    assert_eq!(c.get(&"z".to_string()), None);
    let bad = op(num(3), Opcode::Add, boolean(true));
    assert_eq!(type_check(&decl("x", false, None, Some(bad)), &mut c, &mut f), Err(TypeError::TypeMismatch));
    assert_eq!(
        type_check(&decl("w", false, Some(": string"), None), &mut c, &mut f),
        Err(TypeError::Malformed)
    );
}

#[test]
fn declaration_through_the_parts() {
    let mut c = Context::new();
    let mut f = FnContext::new();
    let r = type_check_let(
        &"r".to_string(),
        &true,
        &Some(": &i32".to_string()),
        &None,
        &mut c,
        &mut f,
    );
    assert_eq!(r, Ok(shared(Types::Number)));
    assert_eq!(c.get(&"r".to_string()), Some(VarInfo { t: shared(Types::Number), mutable: true }));
    let b = type_check_let(&"b".to_string(), &false, &Some(": &bool".to_string()), &None, &mut c, &mut f);
    assert_eq!(b, Ok(shared(Types::Boolean)));
}

#[test]
fn declared_name_has_the_declared_type_at_any_depth() {
    let mut c = init_context();
    let mut f = init_funcs();
    for _ in 0..5 {
        c.add_scope();
        assert_eq!(
            type_check(&decl("x", false, Some(": i32"), Some(num(1))), &mut c, &mut f),
            Ok(Types::Number)
        );
        assert_eq!(type_check(&id("x"), &mut c, &mut f), Ok(Types::Number));
    }
}

#[test]
fn assignment_statements() {
    let mut c = init_context();
    let mut f = init_funcs();
    assert_eq!(type_check(&assign("A", num(5)), &mut c, &mut f), Ok(Types::Number));
    assert_eq!(type_check(&assign("A", boolean(true)), &mut c, &mut f), Err(TypeError::TypeMismatch));
    assert_eq!(type_check(&assign("D", boolean(false)), &mut c, &mut f), Ok(Types::Boolean));
    // A = A % 123 + 45 * 3
    let e = op(op(id("A"), Opcode::Mod, num(123)), Opcode::Add, op(num(45), Opcode::Mul, num(3)));
    assert_eq!(type_check(&assign("A", e), &mut c, &mut f), Ok(Types::Number));
    assert_eq!(type_check(&assign("B", num(5)), &mut c, &mut f), Err(TypeError::ImmutableTarget));
    assert_eq!(
        type_check_assign(&"nowhere".to_string(), &Node::Number(5), &mut c, &mut f),
        Err(TypeError::UnboundName)
    );
}

#[test]
fn unknown_target_takes_any_type() {
    let mut c = init_context();
    let mut f = init_funcs();
    assert_eq!(type_check(&decl("u", true, None, None), &mut c, &mut f), Ok(Types::Unknown));
    assert_eq!(type_check(&assign("u", boolean(true)), &mut c, &mut f), Ok(Types::Boolean));
    assert_eq!(type_check(&assign("u", num(3)), &mut c, &mut f), Ok(Types::Number));
}

#[test]
fn write_through_reference() {
    let mut c = init_context();
    let mut f = init_funcs();
    let m = decl("m", false, None, Some(unary(Opcode::MutRef, id("A"))));
    assert_eq!(type_check(&m, &mut c, &mut f), Ok(exclusive(Types::Number)));
    let s = decl("s", false, None, Some(unary(Opcode::Ref, id("A"))));
    assert_eq!(type_check(&s, &mut c, &mut f), Ok(shared(Types::Number)));
    let name = "m".to_string();
    assert_eq!(
        type_check_write_ref(&Opcode::DeRef, &name, &Node::Number(18), &mut c, &mut f),
        Ok(Types::Unknown)
    );
    assert_eq!(
        type_check_write_ref(&Opcode::DeRef, &name, &Node::Boolean(true), &mut c, &mut f),
        Err(TypeError::TypeMismatch)
    );
    assert_eq!(
        type_check_write_ref(&Opcode::Ref, &name, &Node::Number(18), &mut c, &mut f),
        Err(TypeError::InvalidAssignTarget)
    );
    assert_eq!(
        type_check_write_ref(&Opcode::DeRef, &"s".to_string(), &Node::Number(18), &mut c, &mut f),
        Err(TypeError::InvalidAssignTarget)
    );
    assert_eq!(
        type_check_write_ref(&Opcode::DeRef, &"A".to_string(), &Node::Number(18), &mut c, &mut f),
        Err(TypeError::InvalidAssignTarget)
    );
    assert_eq!(
        type_check_write_ref(&Opcode::DeRef, &"nowhere".to_string(), &Node::Number(1), &mut c, &mut f),
        Err(TypeError::UnboundName)
    );
    let w = Node::WriteByRef(Opcode::DeRef, "m".to_string(), num(3));
    assert_eq!(type_check(&w, &mut c, &mut f), Ok(Types::Unknown));
}

#[test]
fn while_loops() {
    let mut c = init_context();
    let mut f = init_funcs();
    let body = vec![decl("x", false, None, Some(num(5)))];
    assert_eq!(type_check_while(&Node::Boolean(true), &body, &mut c, &mut f), Ok(Types::UnitType));
    // while D && 13 <= A || 456 != B {let x = 5}
    let cond = op(
        op(id("D"), Opcode::And, op(num(13), Opcode::LessOrEq, id("A"))),
        Opcode::Or,
        op(num(456), Opcode::Neq, id("B")),
    );
    assert_eq!(type_check_while(&cond, &body, &mut c, &mut f), Ok(Types::UnitType));
    // while A % 4 + true {let x = 5}
    let bad = op(op(id("A"), Opcode::Mod, num(4)), Opcode::Add, boolean(true));
    assert_eq!(type_check_while(&bad, &body, &mut c, &mut f), Err(TypeError::TypeMismatch));
    // while A % 4 * 32 {let x = 5}
    let number = op(op(id("A"), Opcode::Mod, num(4)), Opcode::Mul, num(32));
    assert_eq!(type_check_while(&number, &body, &mut c, &mut f), Err(TypeError::NotABoolean));
    assert_eq!(c.get(&"x".to_string()), None);
}

#[test]
fn while_bodies_with_returns_and_references() {
    let with_return = Node::While(
        boolean(true),
        vec![decl("x", false, None, Some(num(5))), Box::new(Node::Return(Some(num(12))))],
    );
    assert_eq!(check(&with_return), Ok(Types::UnitType));
    let shadow = decl("A", false, None, Some(boolean(true)));
    let ret = Box::new(Node::Return(Some(op(id("A"), Opcode::Or, boolean(false)))));
    assert_eq!(check(&Node::While(boolean(true), vec![shadow.clone(), ret])), Ok(Types::UnitType));
    let take = decl("c", false, None, Some(unary(Opcode::Ref, id("A"))));
    assert_eq!(check(&Node::While(boolean(true), vec![shadow.clone(), take.clone()])), Ok(Types::UnitType));
    let wrong = decl("c", false, None, Some(unary(Opcode::DeRef, id("A"))));
    assert_eq!(
        check(&Node::While(boolean(true), vec![shadow.clone(), wrong])),
        Err(TypeError::NotAReference)
    );
    let read = decl("b", false, None, Some(unary(Opcode::DeRef, id("c"))));
    assert_eq!(check(&Node::While(boolean(true), vec![shadow.clone(), take, read.clone()])), Ok(Types::UnitType));
    let take_mut = decl("c", false, None, Some(unary(Opcode::MutRef, id("A"))));
    assert_eq!(check(&Node::While(boolean(true), vec![shadow, take_mut, read.clone()])), Ok(Types::UnitType));
    // while true {let A: i32 = 5; let c: &i32 = &A; let b = *c}
    let a = decl("A", false, Some(": i32"), Some(num(5)));
    let c = decl("c", false, Some(": &i32"), Some(unary(Opcode::Ref, id("A"))));
    assert_eq!(check(&Node::While(boolean(true), vec![a, c, read])), Ok(Types::UnitType));
}

#[test]
fn while_bodies_with_errors() {
    let le = decl("a", false, Some(": bool"), Some(op(boolean(true), Opcode::LessOrEq, boolean(false))));
    assert_eq!(check(&Node::While(boolean(false), vec![le])), Err(TypeError::TypeMismatch));
    let and = decl("a", false, Some(": bool"), Some(op(num(5), Opcode::And, num(6))));
    assert_eq!(check(&Node::While(boolean(false), vec![and])), Err(TypeError::TypeMismatch));
    let a = decl("a", false, Some(": bool"), Some(boolean(false)));
    let r = decl("a", false, None, Some(unary(Opcode::Ref, num(5))));
    assert_eq!(check(&Node::While(boolean(false), vec![a, r])), Err(TypeError::TypeMismatch));
}

#[test]
fn if_takes_the_type_of_its_trailing_value() {
    let mut c = init_context();
    let mut f = init_funcs();
    let with_value = vec![decl("x", false, None, Some(num(5))), value(op(num(1234), Opcode::Mul, num(12)))];
    assert_eq!(type_check_if(&Node::Boolean(true), &with_value, &mut c, &mut f), Ok(Types::Number));
    let without = vec![decl("x", false, None, Some(num(5))), decl("a", false, None, Some(num(7)))];
    assert_eq!(type_check_if(&Node::Boolean(true), &without, &mut c, &mut f), Ok(Types::UnitType));
    assert_eq!(type_check_if(&Node::Boolean(true), &Vec::new(), &mut c, &mut f), Ok(Types::UnitType));
    assert_eq!(type_check_if(&Node::Number(1), &without, &mut c, &mut f), Err(TypeError::NotABoolean));
    // the trailing value may use what the block declared
    let uses = vec![decl("a", false, None, Some(num(5))), value(op(id("a"), Opcode::Add, num(5)))];
    assert_eq!(type_check_if(&Node::Boolean(true), &uses, &mut c, &mut f), Ok(Types::Number));
    assert_eq!(c.get(&"a".to_string()), None);
}

#[test]
fn if_else_branches_must_agree() {
    let mut c = init_context();
    let mut f = init_funcs();
    assert_eq!(
        type_check_if_else(&Node::Boolean(true), &vec![value(num(5))], &vec![value(num(6))], &mut c, &mut f),
        Ok(Types::Number)
    );
    assert_eq!(
        type_check_if_else(
            &Node::Boolean(false),
            &vec![value(num(13))],
            &vec![value(boolean(true))],
            &mut c,
            &mut f
        ),
        Err(TypeError::BranchTypeMismatch)
    );
    // if D || true {let x = 3; 14 % 3} else {let x = 3; 67 - 1}
    let cond = op(id("D"), Opcode::Or, boolean(true));
    let first = vec![decl("x", false, None, Some(num(3))), value(op(num(14), Opcode::Mod, num(3)))];
    let second = vec![decl("x", false, None, Some(num(3))), value(op(num(67), Opcode::Sub, num(1)))];
    assert_eq!(type_check_if_else(&cond, &first, &second, &mut c, &mut f), Ok(Types::Number));
    // if D || true {let x = 3 + true; 14 % 3} else {let x = 4; D}
    let broken = vec![
        decl("x", false, None, Some(op(num(3), Opcode::Add, boolean(true)))),
        value(op(num(14), Opcode::Mod, num(3))),
    ];
    let other = vec![decl("x", false, None, Some(num(4))), value(id("D"))];
    assert_eq!(type_check_if_else(&cond, &broken, &other, &mut c, &mut f), Err(TypeError::TypeMismatch));
    assert_eq!(
        type_check_if_else(&Node::Number(0), &first, &second, &mut c, &mut f),
        Err(TypeError::NotABoolean)
    );
}

#[test]
fn if_else_as_initializer() {
    // let mut x: i32 = if D {13 % 10} else {A}
    let e = Box::new(Node::IfElse(
        id("D"),
        vec![value(op(num(13), Opcode::Mod, num(10)))],
        vec![value(id("A"))],
    ));
    assert_eq!(check(&decl("x", true, Some(": i32"), Some(e))), Ok(Types::Number));
}

#[test]
fn return_statements() {
    let mut c = init_context();
    let mut f = init_funcs();
    assert_eq!(type_check_return(&None, &mut c, &mut f), Ok(Types::UnitType));
    // return A + 12313 * 123
    let e = op(id("A"), Opcode::Add, op(num(12313), Opcode::Mul, num(123)));
    assert_eq!(type_check_return(&Some(e), &mut c, &mut f), Ok(Types::Number));
    assert_eq!(
        type_check_return(&Some(op(num(3), Opcode::And, num(14))), &mut c, &mut f),
        Err(TypeError::TypeMismatch)
    );
}

#[test]
fn parameter_annotations() {
    assert_eq!(type_check_param_def(&": i32".to_string()), Ok(Types::Number));
    assert_eq!(type_check_param_def(&": bool".to_string()), Ok(Types::Boolean));
    assert_eq!(type_check_param_def(&": &i32".to_string()), Ok(shared(Types::Number)));
    assert_eq!(type_check_param_def(&": &bool".to_string()), Ok(shared(Types::Boolean)));
    assert_eq!(type_check_param_def(&": &mut i32".to_string()), Ok(exclusive(Types::Number)));
    assert_eq!(type_check_param_def(&": &mut bool".to_string()), Ok(exclusive(Types::Boolean)));
    assert_eq!(type_check_param_def(&"i32".to_string()), Err(TypeError::Malformed));
    assert_eq!(check(&param("p", ": bool")), Ok(Types::Boolean));
}

#[test]
fn call_expressions() {
    let mut c = init_context();
    let mut f = init_funcs();
    let name = "foo".to_string();
    let good = vec![
        op(num(1), Opcode::Add, num(4)),
        op(boolean(true), Opcode::Or, boolean(false)),
        op(id("A"), Opcode::Add, num(1)),
    ];
    assert_eq!(type_check_call(&name, &good, &mut c, &mut f), Ok(Types::Number));
    let short = vec![num(1), boolean(true)];
    assert_eq!(type_check_call(&name, &short, &mut c, &mut f), Err(TypeError::ArityOrTypeMismatch));
    let long = vec![num(1), boolean(true), num(2), num(3)];
    assert_eq!(type_check_call(&name, &long, &mut c, &mut f), Err(TypeError::ArityOrTypeMismatch));
    let wrong = vec![num(1), num(2), num(3)];
    assert_eq!(type_check_call(&name, &wrong, &mut c, &mut f), Err(TypeError::ArityOrTypeMismatch));
    let failing = vec![id("nowhere"), boolean(true), num(3)];
    assert_eq!(type_check_call(&name, &failing, &mut c, &mut f), Err(TypeError::UnboundName));
    assert_eq!(
        type_check_call(&"bar".to_string(), &good, &mut c, &mut f),
        Err(TypeError::UnknownFunction)
    );
}

#[test]
fn function_definitions() {
    let mut f = init_funcs();
    // fib(a: bool, d: bool) -> i32 { let a = 5; if true {6123} else {1234 % 123} }
    let body = vec![
        decl("a", false, None, Some(num(5))),
        Box::new(Node::IfElse(
            boolean(true),
            vec![value(num(6123))],
            vec![value(op(num(1234), Opcode::Mod, num(123)))],
        )),
    ];
    let params = vec![param("a", ": bool"), param("d", ": bool")];
    let r = type_check_fn_def(&"fib".to_string(), &params, &Some("i32".to_string()), &body, &mut f);
    assert_eq!(r, Ok(Types::Number));
    // the signature is registered: a call with two Booleans checks
    let mut c = Context::new();
    assert_eq!(
        type_check_call(&"fib".to_string(), &vec![boolean(true), boolean(false)], &mut c, &mut f),
        Ok(Types::Number)
    );
}

#[test]
fn function_calling_a_registered_function() {
    // fib(a: bool, d: bool) -> i32 { let x = 1+4; let y = true || false; let z = 2345;
    //   let a: i32 = foo(1 + 4, true || false, z + 1); a }
    let body = vec![
        decl("x", false, None, Some(op(num(1), Opcode::Add, num(4)))),
        decl("y", false, None, Some(op(boolean(true), Opcode::Or, boolean(false)))),
        decl("z", false, None, Some(num(2345))),
        decl(
            "a",
            false,
            Some(": i32"),
            Some(call(
                "foo",
                vec![
                    op(num(1), Opcode::Add, num(4)),
                    op(boolean(true), Opcode::Or, boolean(false)),
                    op(id("z"), Opcode::Add, num(1)),
                ],
            )),
        ),
        value(id("a")),
    ];
    let def = func("fib", vec![param("a", ": bool"), param("d", ": bool")], Some("i32"), body);
    assert_eq!(check(&def), Ok(Types::Number));
}

#[test]
fn function_writing_through_a_reference() {
    // fib(a: bool, d: bool) -> i32 { let x = 5; let y = &mut x; *y = 18; return x }
    let body = vec![
        decl("x", false, None, Some(num(5))),
        decl("y", false, None, Some(unary(Opcode::MutRef, id("x")))),
        Box::new(Node::WriteByRef(Opcode::DeRef, "y".to_string(), num(18))),
        Box::new(Node::Return(Some(id("x")))),
    ];
    let def = func("fib", vec![param("a", ": bool"), param("d", ": bool")], Some("i32"), body);
    assert_eq!(check(&def), Ok(Types::Number));
}

#[test]
fn return_type_must_match_the_declaration() {
    let mut f = FnContext::new();
    let name = "f".to_string();
    let body = vec![value(boolean(true))];
    assert_eq!(
        type_check_fn_def(&name, &Vec::new(), &Some("i32".to_string()), &body, &mut f),
        Err(TypeError::ReturnTypeMismatch)
    );
    assert_eq!(
        type_check_fn_def(&name, &Vec::new(), &Some("bool".to_string()), &body, &mut f),
        Ok(Types::Boolean)
    );
    assert_eq!(
        type_check_fn_def(&name, &Vec::new(), &Some("()".to_string()), &Vec::new(), &mut f),
        Ok(Types::UnitType)
    );
    assert_eq!(
        type_check_fn_def(&name, &Vec::new(), &Some("()".to_string()), &body, &mut f),
        Err(TypeError::ReturnTypeMismatch)
    );
    // two results of different types
    let mixed = vec![Box::new(Node::Return(Some(num(1)))), value(boolean(true))];
    assert_eq!(
        type_check_fn_def(&name, &Vec::new(), &Some("bool".to_string()), &mixed, &mut f),
        Err(TypeError::ReturnTypeMismatch)
    );
    // without an annotation the return type is that of the body
    assert_eq!(type_check_fn_def(&name, &Vec::new(), &None, &body, &mut f), Ok(Types::Boolean));
    assert_eq!(
        type_check_fn_def(&name, &Vec::new(), &Some("int".to_string()), &body, &mut f),
        Err(TypeError::Malformed)
    );
    let bad_params = vec![num(1)];
    assert_eq!(
        type_check_fn_def(&name, &bad_params, &None, &body, &mut f),
        Err(TypeError::Malformed)
    );
}

#[test]
fn reference_return_types() {
    let mut f = FnContext::new();
    let params = vec![param("p", ": &i32"), param("q", ": &bool")];
    assert_eq!(
        type_check_fn_def(&"f".to_string(), &params, &Some("&i32".to_string()), &vec![value(id("p"))], &mut f),
        Ok(shared(Types::Number))
    );
    assert_eq!(
        type_check_fn_def(&"g".to_string(), &params, &Some("&bool".to_string()), &vec![value(id("q"))], &mut f),
        Ok(shared(Types::Boolean))
    );
}

#[test]
fn whole_programs() {
    // fn factorial(x: i32) -> i32 { let mut ret: i32 = 0;
    //   if x <= 1 { ret = 1; } else { ret = x * 123 + 111; }; return ret; }
    // fn main() { factorial(6); return; }
    let factorial = func(
        "factorial",
        vec![param("x", ": i32")],
        Some("i32"),
        vec![
            decl("ret", true, Some(": i32"), Some(num(0))),
            Box::new(Node::IfElse(
                op(id("x"), Opcode::LessOrEq, num(1)),
                vec![assign("ret", num(1))],
                vec![assign("ret", op(op(id("x"), Opcode::Mul, num(123)), Opcode::Add, num(111)))],
            )),
            Box::new(Node::Return(Some(id("ret")))),
        ],
    );
    let main = func("main", Vec::new(), None, vec![call("factorial", vec![num(6)]), Box::new(Node::Return(None))]);
    assert_eq!(type_check_program(&vec![factorial.clone(), main.clone()]), Ok(Types::UnitType));
    // a later function may be called before it is defined
    assert_eq!(type_check_program(&vec![main.clone(), factorial.clone()]), Ok(Types::UnitType));
    assert_eq!(check(&Node::Program(vec![factorial.clone(), main])), Ok(Types::UnitType));
    // a program is a list of function definitions
    assert_eq!(type_check_program(&vec![num(1)]), Err(TypeError::Malformed));
    // without main nothing can run
    assert_eq!(type_check_program(&vec![factorial]), Err(TypeError::UnknownFunction));
    assert_eq!(type_check_program(&Vec::new()), Err(TypeError::UnknownFunction));
    // main takes no arguments
    let with_param = func("main", vec![param("i", ": i32")], None, Vec::new());
    assert_eq!(type_check_program(&vec![with_param]), Err(TypeError::ArityOrTypeMismatch));
}

#[test]
fn program_with_reference_parameter() {
    // fn factorial(x: i32, y: &i32) -> i32 { ... return ret; }
    // fn main() { let a = 5; let z = &a; factorial(6, z); return; }
    let factorial = func(
        "factorial",
        vec![param("x", ": i32"), param("y", ": &i32")],
        Some("i32"),
        vec![decl("ret", true, Some(": i32"), Some(num(0))), Box::new(Node::Return(Some(id("ret"))))],
    );
    let main = func(
        "main",
        Vec::new(),
        None,
        vec![
            decl("a", false, None, Some(num(5))),
            decl("z", false, None, Some(unary(Opcode::Ref, id("a")))),
            call("factorial", vec![num(6), id("z")]),
            Box::new(Node::Return(None)),
        ],
    );
    assert_eq!(type_check_program(&vec![factorial, main]), Ok(Types::UnitType));
}

#[test]
fn last_registration_wins() {
    let first = func("f", Vec::new(), Some("i32"), vec![value(num(1))]);
    let second = func("f", Vec::new(), Some("bool"), vec![value(boolean(true))]);
    let main = func("main", Vec::new(), None, vec![value(call("f", Vec::new()))]);
    assert_eq!(type_check_program(&vec![first, second, main]), Ok(Types::Boolean));
}

#[test]
fn program_stops_at_the_first_failing_function() {
    let bad = func("f", Vec::new(), Some("i32"), vec![value(id("nowhere"))]);
    let worse = func("g", Vec::new(), Some("i32"), vec![value(boolean(true))]);
    let main = func("main", Vec::new(), None, Vec::new());
    assert_eq!(type_check_program(&vec![bad, worse, main]), Err(TypeError::UnboundName));
}

#[test]
fn shadowing_ends_with_the_block() {
    let mut c = init_context();
    let mut f = init_funcs();
    let inner = vec![decl("A", false, None, Some(boolean(true))), value(id("A"))];
    assert_eq!(type_check_if(&Node::Boolean(true), &inner, &mut c, &mut f), Ok(Types::Boolean));
    assert_eq!(c.get(&"A".to_string()), Some(VarInfo { t: Types::Number, mutable: true }));
    c.add_scope();
    c.insert(&"A".to_string(), &Types::Boolean, &false);
    assert_eq!(c.get(&"A".to_string()), Some(VarInfo { t: Types::Boolean, mutable: false }));
    c.remove_scope();
    assert_eq!(c.get(&"A".to_string()), Some(VarInfo { t: Types::Number, mutable: true }));
}

#[test]
fn redeclaration_in_one_scope_overwrites() {
    let mut c = Context::new();
    c.insert(&"x".to_string(), &Types::Number, &true);
    c.insert(&"x".to_string(), &Types::Boolean, &false);
    assert_eq!(c.get(&"x".to_string()), Some(VarInfo { t: Types::Boolean, mutable: false }));
    c.remove_scope();
    assert_eq!(c.get(&"x".to_string()), None);
}
