use minilang::ast::{Node, Opcode};
use minilang::interpreter::{
    func_definition, get_param_name, interp_context, interp_fn_context, interpret,
    interpret_assign, interpret_call, interpret_call_wrapper, interpret_if, interpret_if_else,
    interpret_let, interpret_op, interpret_program, interpret_return, interpret_unary_op,
    interpret_while, interpret_write_ref, Value, VarContext,
};
use minilang::values::{apply_binary, apply_negation, apply_number_op, RuntimeError};

const FUEL: usize = 1000;

fn num(n: i32) -> Box<Node> {
    Box::new(Node::Number(n))
}

fn boolean(b: bool) -> Box<Node> {
    Box::new(Node::Boolean(b))
}

fn id(s: &str) -> Box<Node> {
    Box::new(Node::ID(s.to_string()))
}

fn op(l: Box<Node>, o: Opcode, r: Box<Node>) -> Box<Node> {
    Box::new(Node::Op(l, o, r))
}

fn unary(o: Opcode, e: Box<Node>) -> Box<Node> {
    Box::new(Node::UnaryOp(o, e))
}

fn value(e: Box<Node>) -> Box<Node> {
    Box::new(Node::BlockValue(e))
}

fn decl(name: &str, init: Box<Node>) -> Box<Node> {
    Box::new(Node::Declaration(name.to_string(), true, None, Some(init)))
}

fn assign(name: &str, e: Box<Node>) -> Box<Node> {
    Box::new(Node::Assign(name.to_string(), e))
}

fn write(name: &str, e: Box<Node>) -> Box<Node> {
    Box::new(Node::WriteByRef(Opcode::DeRef, name.to_string(), e))
}

fn call(name: &str, args: Vec<Box<Node>>) -> Box<Node> {
    Box::new(Node::Call(name.to_string(), args))
}

fn param(name: &str, ann: &str) -> Box<Node> {
    Box::new(Node::ParamDef(name.to_string(), ann.to_string()))
}

fn func(name: &str, params: Vec<Box<Node>>, ret: Option<&str>, body: Vec<Box<Node>>) -> Box<Node> {
    Box::new(Node::FnDef(name.to_string(), params, ret.map(|s| s.to_string()), body))
}

fn ret(e: Box<Node>) -> Box<Node> {
    Box::new(Node::Return(Some(e)))
}

fn eval(node: &Node) -> Result<Value, RuntimeError> {
    let mut c = interp_context();
    let mut f = interp_fn_context();
    interpret(node, &mut c, &mut f, FUEL)
}

fn run(vars: &mut VarContext, stmts: Vec<Box<Node>>) -> Result<Value, RuntimeError> {
    let mut f = interp_fn_context();
    let mut last = Ok(Value::NoValue);
    for s in stmts.iter() {
        last = interpret(s, vars, &mut f, FUEL);
        if last.is_err() {
            return last;
        }
    }
    last
}

fn value_of(vars: &VarContext, name: &str) -> Option<Value> {
    vars.get(&name.to_string()).map(|s| s.value)
}

fn ledger_of(vars: &VarContext, name: &str) -> Vec<(String, bool)> {
    let slot = vars.get(&name.to_string()).unwrap();
    slot.borrows.iter().map(|b| (b.name.clone(), b.mutable)).collect()
}

#[test]
fn literals_evaluate_to_themselves() {
    assert_eq!(eval(&Node::Number(-4)), Ok(Value::Number(-4)));
    assert_eq!(eval(&Node::Boolean(true)), Ok(Value::Boolean(true)));
}

#[test]
fn arithmetic_expressions() {
    assert_eq!(eval(&op(num(1), Opcode::Add, num(2))), Ok(Value::Number(3)));
    assert_eq!(eval(&op(num(24), Opcode::Add, unary(Opcode::UnarySub, num(6)))), Ok(Value::Number(18)));
    assert_eq!(eval(&op(num(7), Opcode::Sub, num(9))), Ok(Value::Number(-2)));
    assert_eq!(eval(&op(num(6), Opcode::Mul, num(7))), Ok(Value::Number(42)));
    assert_eq!(eval(&op(num(23), Opcode::Div, num(4))), Ok(Value::Number(5)));
    assert_eq!(eval(&op(num(23), Opcode::Mod, num(4))), Ok(Value::Number(3)));
}

#[test]
fn division_rounds_towards_zero() {
    assert_eq!(apply_number_op(&Opcode::Div, -7, 2), Ok(Value::Number(-3)));
    assert_eq!(apply_number_op(&Opcode::Div, 7, -2), Ok(Value::Number(-3)));
    assert_eq!(apply_number_op(&Opcode::Div, -7, -2), Ok(Value::Number(3)));
    assert_eq!(apply_number_op(&Opcode::Mod, -7, 2), Ok(Value::Number(-1)));
    assert_eq!(apply_number_op(&Opcode::Mod, 7, -2), Ok(Value::Number(1)));
    assert_eq!(apply_number_op(&Opcode::Mod, -7, -2), Ok(Value::Number(-1)));
    assert_eq!(apply_number_op(&Opcode::Div, 0, 5), Ok(Value::Number(0)));
}

#[test]
fn division_by_zero_is_a_fault() {
    assert_eq!(eval(&op(num(1), Opcode::Div, num(0))), Err(RuntimeError::DivisionByZero));
    assert_eq!(eval(&op(num(1), Opcode::Mod, num(0))), Err(RuntimeError::DivisionByZero));
}

#[test]
fn arithmetic_wraps_at_32_bits() {
    assert_eq!(apply_number_op(&Opcode::Add, i32::MAX, 1), Ok(Value::Number(i32::MIN)));
    assert_eq!(apply_number_op(&Opcode::Sub, i32::MIN, 1), Ok(Value::Number(i32::MAX)));
    assert_eq!(apply_number_op(&Opcode::Mul, 65536, 65536), Ok(Value::Number(0)));
    assert_eq!(apply_number_op(&Opcode::Mul, i32::MAX, 2), Ok(Value::Number(-2)));
    assert_eq!(apply_number_op(&Opcode::Div, i32::MIN, -1), Ok(Value::Number(i32::MIN)));
    assert_eq!(apply_number_op(&Opcode::Mod, i32::MIN, -1), Ok(Value::Number(0)));
    assert_eq!(apply_negation(&Opcode::UnarySub, Value::Number(i32::MIN)), Ok(Value::Number(i32::MIN)));
    assert_eq!(apply_negation(&Opcode::UnarySub, Value::Number(5)), Ok(Value::Number(-5)));
}

#[test]
fn comparisons_and_logic() {
    assert_eq!(eval(&op(boolean(true), Opcode::Equals, boolean(false))), Ok(Value::Boolean(false)));
    // 23 % 4 < 345 || 15 - 3 == 34
    let left = op(op(num(23), Opcode::Mod, num(4)), Opcode::Less, num(345));
    let right = op(op(num(15), Opcode::Sub, num(3)), Opcode::Equals, num(34));
    assert_eq!(eval(&op(left, Opcode::Or, right)), Ok(Value::Boolean(true)));
    assert_eq!(apply_number_op(&Opcode::Less, 1, 2), Ok(Value::Boolean(true)));
    assert_eq!(apply_number_op(&Opcode::LessOrEq, 2, 2), Ok(Value::Boolean(true)));
    assert_eq!(apply_number_op(&Opcode::Greater, 1, 2), Ok(Value::Boolean(false)));
    assert_eq!(apply_number_op(&Opcode::GreaterorEq, 1, 2), Ok(Value::Boolean(false)));
    assert_eq!(apply_number_op(&Opcode::Neq, 1, 2), Ok(Value::Boolean(true)));
    assert_eq!(
        apply_binary(&Opcode::And, Value::Boolean(true), Value::Boolean(false)),
        Ok(Value::Boolean(false))
    );
    assert_eq!(
        apply_binary(&Opcode::Neq, Value::Boolean(true), Value::Boolean(false)),
        Ok(Value::Boolean(true))
    );
    assert_eq!(apply_negation(&Opcode::Not, Value::Boolean(true)), Ok(Value::Boolean(false)));
}

#[test]
fn operands_of_the_wrong_kind_are_a_fault() {
    assert_eq!(eval(&op(num(1), Opcode::Add, boolean(true))), Err(RuntimeError::TypeFault));
    assert_eq!(eval(&op(boolean(true), Opcode::Add, boolean(true))), Err(RuntimeError::TypeFault));
    assert_eq!(eval(&op(num(1), Opcode::And, num(2))), Err(RuntimeError::TypeFault));
    assert_eq!(eval(&unary(Opcode::Not, num(1))), Err(RuntimeError::TypeFault));
    assert_eq!(eval(&unary(Opcode::UnarySub, boolean(true))), Err(RuntimeError::TypeFault));
    assert_eq!(apply_binary(&Opcode::Add, Value::NoValue, Value::Number(1)), Err(RuntimeError::TypeFault));
}

#[test]
fn nodes_outside_the_grammar_are_malformed() {
    assert_eq!(eval(&unary(Opcode::Add, num(1))), Err(RuntimeError::Malformed));
    assert_eq!(eval(&unary(Opcode::DeRef, num(1))), Err(RuntimeError::Malformed));
    assert_eq!(eval(&Node::Type(": i32".to_string())), Err(RuntimeError::Malformed));
    assert_eq!(eval(&param("p", ": i32")), Err(RuntimeError::Malformed));
    assert_eq!(eval(&func("f", Vec::new(), None, Vec::new())), Err(RuntimeError::Malformed));
    assert_eq!(interpret_program(&vec![num(1)], FUEL), Err(RuntimeError::Malformed));
}

#[test]
fn undeclared_identifier_is_a_fault() {
    assert_eq!(eval(&id("x")), Err(RuntimeError::UnboundName));
    assert_eq!(eval(&assign("x", num(1))), Err(RuntimeError::UnboundName));
    assert_eq!(eval(&unary(Opcode::Ref, id("x"))), Err(RuntimeError::UnboundName));
    assert_eq!(eval(&unary(Opcode::DeRef, id("x"))), Err(RuntimeError::UnboundName));
    assert_eq!(eval(&write("x", num(1))), Err(RuntimeError::UnboundName));
}

#[test]
fn declaration_binds_a_copy_of_the_value() {
    let mut c = interp_context();
    let mut f = interp_fn_context();
    assert_eq!(
        interpret_let(&"a".to_string(), &Some(num(0)), &mut c, &mut f, FUEL),
        Ok(Value::NoValue)
    );
    assert_eq!(value_of(&c, "a"), Some(Value::Number(0)));
    assert_eq!(interpret_let(&"b".to_string(), &None, &mut c, &mut f, FUEL), Ok(Value::NoValue));
    assert_eq!(value_of(&c, "b"), Some(Value::NoValue));
    assert_eq!(
        interpret_let(&"c".to_string(), &Some(id("nowhere")), &mut c, &mut f, FUEL),
        Err(RuntimeError::UnboundName)
    );
    assert_eq!(value_of(&c, "c"), None);
}

#[test]
fn assignment_replaces_the_value_in_place() {
    let mut c = interp_context();
    let mut f = interp_fn_context();
    c.insert(&"x".to_string(), &Value::Number(1));
    c.add_scope();
    assert_eq!(
        interpret_assign(&"x".to_string(), &Node::Number(7), &mut c, &mut f, FUEL),
        Ok(Value::NoValue)
    );
    c.remove_scope();
    assert_eq!(value_of(&c, "x"), Some(Value::Number(7)));
}

#[test]
fn scope_operations() {
    let mut c = interp_context();
    c.insert(&"x".to_string(), &Value::Number(1));
    c.add_scope();
    assert_eq!(value_of(&c, "x"), Some(Value::Number(1)));
    c.insert(&"x".to_string(), &Value::Boolean(true));
    c.insert(&"y".to_string(), &Value::Number(2));
    assert_eq!(value_of(&c, "x"), Some(Value::Boolean(true)));
    c.update(&"x".to_string(), &Value::Boolean(false));
    assert_eq!(value_of(&c, "x"), Some(Value::Boolean(false)));
    c.remove_scope();
    assert_eq!(value_of(&c, "x"), Some(Value::Number(1)));
    assert_eq!(value_of(&c, "y"), None);
    c.update(&"y".to_string(), &Value::Number(3));
    assert_eq!(value_of(&c, "y"), None);
    c.remove_scope();
    c.remove_scope();
    assert_eq!(value_of(&c, "x"), None);
}

#[test]
fn shadowed_value_comes_back_after_the_block() {
    let mut c = interp_context();
    let stmts = vec![
        decl("x", num(1)),
        Box::new(Node::IfStmt(boolean(true), vec![decl("x", num(2)), assign("x", num(3))])),
        value(id("x")),
    ];
    assert_eq!(run(&mut c, stmts), Ok(Value::Number(1)));
}

#[test]
fn borrow_ledger_records() {
    let mut c = interp_context();
    c.insert(&"x".to_string(), &Value::Number(5));
    c.insert_borrow(&"a".to_string(), &"x".to_string(), false);
    c.insert_borrow(&"b".to_string(), &"x".to_string(), false);
    assert_eq!(ledger_of(&c, "x"), vec![("b".to_string(), false), ("a".to_string(), false)]);
    assert_eq!(c.get(&"a".to_string()).unwrap().borrow_of, Some("x".to_string()));
    assert_eq!(value_of(&c, "a"), Some(Value::NoValue));
    // an exclusive borrow discards the earlier records
    c.insert_borrow(&"m".to_string(), &"x".to_string(), true);
    assert_eq!(ledger_of(&c, "x"), vec![("m".to_string(), true)]);
    c.insert_borrow(&"s".to_string(), &"x".to_string(), false);
    assert_eq!(ledger_of(&c, "x"), vec![("s".to_string(), false), ("m".to_string(), true)]);
    // a direct assignment drops the exclusive borrow
    c.remove_mut_borrow(&"x".to_string());
    assert_eq!(ledger_of(&c, "x"), vec![("s".to_string(), false)]);
    c.remove_mut_borrow(&"x".to_string());
    assert_eq!(ledger_of(&c, "x"), vec![("s".to_string(), false)]);
    assert_eq!(value_of(&c, "x"), Some(Value::Number(5)));
}

#[test]
fn exclusive_borrow_with_a_later_shared_one_cannot_be_read() {
    // let x = 5; let b = &mut x; let c = &x;
    let mut c = interp_context();
    let stmts = vec![
        decl("x", num(5)),
        decl("b", unary(Opcode::MutRef, id("x"))),
        decl("c", unary(Opcode::Ref, id("x"))),
    ];
    assert_eq!(run(&mut c, stmts), Ok(Value::NoValue));
    assert_eq!(run(&mut c, vec![unary(Opcode::DeRef, id("b"))]), Err(RuntimeError::BorrowConflict));
    assert_eq!(c.deref(&"b".to_string()), Err(RuntimeError::BorrowConflict));
    assert_eq!(c.deref(&"c".to_string()), Ok(Value::Number(5)));
}

#[test]
fn shared_borrows_can_all_be_read() {
    // let x = 5; let b = &x; let c = &x;
    let mut c = interp_context();
    let stmts = vec![
        decl("x", num(5)),
        decl("b", unary(Opcode::Ref, id("x"))),
        decl("c", unary(Opcode::Ref, id("x"))),
    ];
    assert_eq!(run(&mut c, stmts), Ok(Value::NoValue));
    assert_eq!(run(&mut c, vec![unary(Opcode::DeRef, id("b"))]), Ok(Value::Number(5)));
    assert_eq!(run(&mut c, vec![unary(Opcode::DeRef, id("c"))]), Ok(Value::Number(5)));
}

#[test]
fn shared_borrow_under_a_newer_exclusive_one_cannot_be_read() {
    let mut c = interp_context();
    c.insert(&"x".to_string(), &Value::Number(5));
    c.insert_borrow(&"s".to_string(), &"x".to_string(), false);
    c.insert_borrow(&"m".to_string(), &"x".to_string(), true);
    // the exclusive borrow discarded the record of s
    assert_eq!(c.deref(&"s".to_string()), Err(RuntimeError::BorrowConflict));
    assert_eq!(c.deref(&"m".to_string()), Ok(Value::Number(5)));
}

#[test]
fn dangling_references() {
    let mut c = interp_context();
    c.insert(&"x".to_string(), &Value::Number(5));
    c.insert_borrow(&"s".to_string(), &"x".to_string(), false);
    // x is declared anew: its ledger is empty
    c.insert(&"x".to_string(), &Value::Number(6));
    assert_eq!(c.deref(&"s".to_string()), Err(RuntimeError::DanglingReference));
    // x is no reference
    assert_eq!(c.deref(&"x".to_string()), Err(RuntimeError::DanglingReference));
    assert_eq!(c.write_target(&"x".to_string()), Err(RuntimeError::DanglingReference));
    // a reference marker that names no variable
    let mut d = interp_context();
    let mut f = interp_fn_context();
    let marker = unary(Opcode::Ref, num(5));
    assert_eq!(
        interpret_let(&"r".to_string(), &Some(marker), &mut d, &mut f, FUEL),
        Err(RuntimeError::DanglingReference)
    );
}

#[test]
fn write_through_exclusive_reference() {
    // let mut x = 5; let y = &mut x; *y = 18; x
    let mut c = interp_context();
    let stmts = vec![
        decl("x", num(5)),
        decl("y", unary(Opcode::MutRef, id("x"))),
        write("y", num(18)),
        value(id("x")),
    ];
    assert_eq!(run(&mut c, stmts), Ok(Value::Number(18)));
    assert_eq!(c.deref(&"y".to_string()), Ok(Value::Number(18)));
}

#[test]
fn write_after_a_second_exclusive_borrow_is_rejected() {
    let mut c = interp_context();
    let stmts = vec![
        decl("x", num(5)),
        decl("y", unary(Opcode::MutRef, id("x"))),
        decl("z", unary(Opcode::MutRef, id("x"))),
    ];
    assert_eq!(run(&mut c, stmts), Ok(Value::NoValue));
    let mut f = interp_fn_context();
    assert_eq!(
        interpret_write_ref(&"y".to_string(), &Node::Number(1), &mut c, &mut f, FUEL),
        Err(RuntimeError::WriteRejected)
    );
    assert_eq!(value_of(&c, "x"), Some(Value::Number(5)));
    assert_eq!(
        interpret_write_ref(&"z".to_string(), &Node::Number(2), &mut c, &mut f, FUEL),
        Ok(Value::NoValue)
    );
    assert_eq!(value_of(&c, "x"), Some(Value::Number(2)));
}

#[test]
fn write_through_a_shared_reference_is_rejected() {
    let mut c = interp_context();
    let stmts = vec![decl("x", num(5)), decl("s", unary(Opcode::Ref, id("x"))), write("s", num(1))];
    assert_eq!(run(&mut c, stmts), Err(RuntimeError::WriteRejected));
    // a shared borrow in front of the exclusive one blocks the write too
    let mut d = interp_context();
    let stmts = vec![
        decl("x", num(5)),
        decl("m", unary(Opcode::MutRef, id("x"))),
        decl("s", unary(Opcode::Ref, id("x"))),
        write("m", num(1)),
    ];
    assert_eq!(run(&mut d, stmts), Err(RuntimeError::WriteRejected));
}

#[test]
fn block_with_borrows_and_reassignment() {
    // if true { let a = 2; let b = &a; let c = &mut a; *c = 10;
    //           let x = &a; let y = &a; a = 6; let d = *y; d }
    let body = vec![
        decl("a", num(2)),
        decl("b", unary(Opcode::Ref, id("a"))),
        decl("c", unary(Opcode::MutRef, id("a"))),
        write("c", num(10)),
        decl("x", unary(Opcode::Ref, id("a"))),
        decl("y", unary(Opcode::Ref, id("a"))),
        assign("a", num(6)),
        decl("d", unary(Opcode::DeRef, id("y"))),
        value(id("d")),
    ];
    let mut c = interp_context();
    let mut f = interp_fn_context();
    assert_eq!(interpret_if(&Node::Boolean(true), &body, &mut c, &mut f, FUEL), Ok(Value::Number(6)));
    assert_eq!(value_of(&c, "a"), None);
}

#[test]
fn loop_inside_a_block() {
    // if 4 < 5 { let a = 0; let b = &a; while a < 10 { a = a + 1; }; a }
    let body = vec![
        decl("a", num(0)),
        decl("b", unary(Opcode::Ref, id("a"))),
        Box::new(Node::While(
            op(id("a"), Opcode::Less, num(10)),
            vec![assign("a", op(id("a"), Opcode::Add, num(1)))],
        )),
        value(id("a")),
    ];
    let node = Node::IfStmt(op(num(4), Opcode::Less, num(5)), body);
    assert_eq!(eval(&node), Ok(Value::Number(10)));
}

#[test]
fn rebinding_a_reference_by_assignment() {
    let mut c = interp_context();
    let stmts = vec![
        decl("x", num(1)),
        decl("y", num(2)),
        decl("r", unary(Opcode::Ref, id("x"))),
        assign("r", unary(Opcode::Ref, id("y"))),
        value(unary(Opcode::DeRef, id("r"))),
    ];
    assert_eq!(run(&mut c, stmts), Ok(Value::Number(2)));
}

#[test]
fn while_loop_runs_until_the_condition_fails() {
    let mut c = interp_context();
    let mut f = interp_fn_context();
    c.insert(&"n".to_string(), &Value::Number(0));
    let body = vec![assign("n", op(id("n"), Opcode::Add, num(3)))];
    let cond = op(id("n"), Opcode::Less, num(10));
    assert_eq!(interpret_while(&cond, &body, &mut c, &mut f, FUEL), Ok(Value::NoValue));
    assert_eq!(value_of(&c, "n"), Some(Value::Number(12)));
    // a false condition never enters the body
    assert_eq!(interpret_while(&Node::Boolean(false), &body, &mut c, &mut f, FUEL), Ok(Value::NoValue));
    assert_eq!(value_of(&c, "n"), Some(Value::Number(12)));
    assert_eq!(
        interpret_while(&Node::Number(1), &body, &mut c, &mut f, FUEL),
        Err(RuntimeError::TypeFault)
    );
}

#[test]
fn endless_loop_runs_out_of_fuel() {
    let mut c = interp_context();
    let mut f = interp_fn_context();
    assert_eq!(
        interpret_while(&Node::Boolean(true), &Vec::new(), &mut c, &mut f, 50),
        Err(RuntimeError::OutOfFuel)
    );
    assert_eq!(
        interpret_while(&Node::Boolean(false), &Vec::new(), &mut c, &mut f, 0),
        Err(RuntimeError::OutOfFuel)
    );
    assert_eq!(
        interpret_while(&Node::Boolean(false), &Vec::new(), &mut c, &mut f, 1),
        Ok(Value::NoValue)
    );
}

#[test]
fn loop_needs_one_unit_of_fuel_for_each_test() {
    let body = vec![assign("n", op(id("n"), Opcode::Add, num(1)))];
    let cond = op(id("n"), Opcode::Less, num(10));
    let mut f = interp_fn_context();
    let mut c = interp_context();
    c.insert(&"n".to_string(), &Value::Number(0));
    assert_eq!(interpret_while(&cond, &body, &mut c, &mut f, 11), Ok(Value::NoValue));
    let mut d = interp_context();
    d.insert(&"n".to_string(), &Value::Number(0));
    assert_eq!(interpret_while(&cond, &body, &mut d, &mut f, 10), Err(RuntimeError::OutOfFuel));
}

#[test]
fn if_and_if_else_take_one_branch() {
    let mut c = interp_context();
    let mut f = interp_fn_context();
    assert_eq!(
        interpret_if(&Node::Boolean(false), &vec![value(num(1))], &mut c, &mut f, FUEL),
        Ok(Value::NoValue)
    );
    assert_eq!(
        interpret_if(&Node::Boolean(true), &vec![value(num(1))], &mut c, &mut f, FUEL),
        Ok(Value::Number(1))
    );
    assert_eq!(
        interpret_if(&Node::Boolean(true), &vec![num(1)], &mut c, &mut f, FUEL),
        Ok(Value::NoValue)
    );
    assert_eq!(
        interpret_if(&Node::Number(1), &vec![value(num(1))], &mut c, &mut f, FUEL),
        Err(RuntimeError::TypeFault)
    );
    let first = vec![value(num(1))];
    let second = vec![value(num(2))];
    assert_eq!(
        interpret_if_else(&Node::Boolean(true), &first, &second, &mut c, &mut f, FUEL),
        Ok(Value::Number(1))
    );
    assert_eq!(
        interpret_if_else(&Node::Boolean(false), &first, &second, &mut c, &mut f, FUEL),
        Ok(Value::Number(2))
    );
    assert_eq!(
        interpret_if_else(&Node::Number(0), &first, &second, &mut c, &mut f, FUEL),
        Err(RuntimeError::TypeFault)
    );
}

#[test]
fn operator_functions_through_the_parts() {
    let mut c = interp_context();
    let mut f = interp_fn_context();
    c.insert(&"x".to_string(), &Value::Number(4));
    assert_eq!(
        interpret_op(&Node::ID("x".to_string()), &Opcode::Mul, &Node::Number(5), &mut c, &mut f, FUEL),
        Ok(Value::Number(20))
    );
    assert_eq!(
        interpret_op(&Node::ID("q".to_string()), &Opcode::Mul, &Node::Number(5), &mut c, &mut f, FUEL),
        Err(RuntimeError::UnboundName)
    );
    assert_eq!(
        interpret_unary_op(&Opcode::UnarySub, &Node::ID("x".to_string()), &mut c, &mut f, FUEL),
        Ok(Value::Number(-4))
    );
    assert_eq!(
        interpret_unary_op(&Opcode::Ref, &Node::ID("x".to_string()), &mut c, &mut f, FUEL),
        Ok(Value::RefValue)
    );
    assert_eq!(
        interpret_unary_op(&Opcode::MutRef, &Node::ID("x".to_string()), &mut c, &mut f, FUEL),
        Ok(Value::RefValue)
    );
    // taking a reference alone records nothing
    assert_eq!(ledger_of(&c, "x"), Vec::new());
}

#[test]
fn return_ends_the_activation() {
    let mut c = interp_context();
    let mut f = interp_fn_context();
    assert_eq!(c.returned(), None);
    assert_eq!(interpret_return(&Some(num(3)), &mut c, &mut f, FUEL), Ok(Value::Number(3)));
    assert_eq!(c.returned(), Some(Value::Number(3)));
    // the first return decides
    assert_eq!(interpret_return(&None, &mut c, &mut f, FUEL), Ok(Value::NoValue));
    assert_eq!(c.returned(), Some(Value::Number(3)));
}

#[test]
fn return_inside_a_loop_leaves_the_function() {
    // fn main() { let n = 0; while true { n = n + 1; if n == 3 { return n * 10; } }; 99 }
    let body = vec![
        decl("n", num(0)),
        Box::new(Node::While(
            boolean(true),
            vec![
                assign("n", op(id("n"), Opcode::Add, num(1))),
                Box::new(Node::IfStmt(
                    op(id("n"), Opcode::Equals, num(3)),
                    vec![ret(op(id("n"), Opcode::Mul, num(10)))],
                )),
            ],
        )),
        value(num(99)),
    ];
    let program = vec![func("main", Vec::new(), Some("i32"), body)];
    assert_eq!(interpret_program(&program, FUEL), Ok(Value::Number(30)));
}

#[test]
fn return_pops_every_scope_it_leaves() {
    let mut c = interp_context();
    c.add_scope();
    let node = Node::While(
        boolean(true),
        vec![Box::new(Node::IfStmt(boolean(true), vec![decl("t", num(1)), ret(num(7))]))],
    );
    let mut f = interp_fn_context();
    assert_eq!(interpret(&node, &mut c, &mut f, FUEL), Ok(Value::Number(7)));
    assert_eq!(c.returned(), Some(Value::Number(7)));
    assert_eq!(value_of(&c, "t"), None);
    // exactly the scope from before is left
    c.insert(&"probe".to_string(), &Value::Number(1));
    c.remove_scope();
    assert_eq!(value_of(&c, "probe"), None);
}

#[test]
fn fault_in_a_block_pops_its_scope() {
    let mut c = interp_context();
    c.add_scope();
    let node = Node::IfStmt(boolean(true), vec![decl("t", num(1)), value(id("nowhere"))]);
    let mut f = interp_fn_context();
    assert_eq!(interpret(&node, &mut c, &mut f, FUEL), Err(RuntimeError::UnboundName));
    assert_eq!(value_of(&c, "t"), None);
    c.insert(&"probe".to_string(), &Value::Number(1));
    c.remove_scope();
    assert_eq!(value_of(&c, "probe"), None);
}

#[test]
fn parameter_names() {
    assert_eq!(get_param_name(&param("x", ": i32")), Some("x".to_string()));
    assert_eq!(get_param_name(&Node::Number(1)), None);
}

#[test]
fn call_by_value() {
    let mut f = interp_fn_context();
    let params = vec![param("a", ": i32"), param("b", ": i32")];
    let body = vec![value(op(id("a"), Opcode::Sub, id("b")))];
    func_definition(&"minus".to_string(), &params, &body, &mut f);
    let mut c = interp_context();
    c.insert(&"a".to_string(), &Value::Number(100));
    let args = vec![num(9), op(num(2), Opcode::Add, num(2))];
    assert_eq!(interpret_call(&"minus".to_string(), &args, &mut f, &mut c, FUEL), Ok(Value::Number(5)));
    assert_eq!(
        interpret_call_wrapper(&"minus".to_string(), &args, &mut f, &mut c, FUEL),
        Ok(Value::Number(5))
    );
    // the callee saw its own a, and the caller keeps its own
    assert_eq!(value_of(&c, "a"), Some(Value::Number(100)));
    assert_eq!(value_of(&c, "b"), None);
    assert_eq!(interpret(&call("minus", args), &mut c, &mut f, FUEL), Ok(Value::Number(5)));
}

#[test]
fn callee_does_not_see_the_caller_scopes() {
    let mut f = interp_fn_context();
    func_definition(&"peek".to_string(), &Vec::new(), &vec![value(id("secret"))], &mut f);
    let mut c = interp_context();
    c.insert(&"secret".to_string(), &Value::Number(1));
    assert_eq!(
        interpret_call(&"peek".to_string(), &Vec::new(), &mut f, &mut c, FUEL),
        Err(RuntimeError::UnboundName)
    );
}

#[test]
fn call_faults() {
    let mut f = interp_fn_context();
    let mut c = interp_context();
    func_definition(&"one".to_string(), &vec![param("a", ": i32")], &vec![value(id("a"))], &mut f);
    assert_eq!(
        interpret_call(&"missing".to_string(), &Vec::new(), &mut f, &mut c, FUEL),
        Err(RuntimeError::UnknownFunction)
    );
    assert_eq!(
        interpret_call(&"one".to_string(), &Vec::new(), &mut f, &mut c, FUEL),
        Err(RuntimeError::TypeFault)
    );
    assert_eq!(
        interpret_call(&"one".to_string(), &vec![num(1), num(2)], &mut f, &mut c, FUEL),
        Err(RuntimeError::TypeFault)
    );
    assert_eq!(
        interpret_call(&"one".to_string(), &vec![id("nowhere")], &mut f, &mut c, FUEL),
        Err(RuntimeError::UnboundName)
    );
    assert_eq!(
        interpret_call(&"one".to_string(), &vec![num(1)], &mut f, &mut c, 0),
        Err(RuntimeError::OutOfFuel)
    );
    assert_eq!(interpret_call(&"one".to_string(), &vec![num(1)], &mut f, &mut c, 1), Ok(Value::Number(1)));
    func_definition(&"odd".to_string(), &vec![num(1)], &Vec::new(), &mut f);
    assert_eq!(
        interpret_call(&"odd".to_string(), &vec![num(1)], &mut f, &mut c, FUEL),
        Err(RuntimeError::Malformed)
    );
}

#[test]
fn call_without_result_gives_no_value() {
    let mut f = interp_fn_context();
    let mut c = interp_context();
    func_definition(&"quiet".to_string(), &Vec::new(), &vec![decl("x", num(1))], &mut f);
    assert_eq!(interpret_call(&"quiet".to_string(), &Vec::new(), &mut f, &mut c, FUEL), Ok(Value::NoValue));
    func_definition(&"empty".to_string(), &Vec::new(), &Vec::new(), &mut f);
    assert_eq!(interpret_call(&"empty".to_string(), &Vec::new(), &mut f, &mut c, FUEL), Ok(Value::NoValue));
    func_definition(&"bare".to_string(), &Vec::new(), &vec![Box::new(Node::Return(None))], &mut f);
    assert_eq!(interpret_call(&"bare".to_string(), &Vec::new(), &mut f, &mut c, FUEL), Ok(Value::NoValue));
}

#[test]
fn call_by_shared_reference() {
    // fn twice(p: &i32) -> i32 { *p * 2 }
    let mut f = interp_fn_context();
    let body = vec![value(op(unary(Opcode::DeRef, id("p")), Opcode::Mul, num(2)))];
    func_definition(&"twice".to_string(), &vec![param("p", ": &i32")], &body, &mut f);
    let mut c = interp_context();
    let stmts = vec![decl("a", num(21)), decl("z", unary(Opcode::Ref, id("a")))];
    assert_eq!(run(&mut c, stmts), Ok(Value::NoValue));
    assert_eq!(interpret_call(&"twice".to_string(), &vec![id("z")], &mut f, &mut c, FUEL), Ok(Value::Number(42)));
    // the argument of a reference parameter must be a name
    assert_eq!(
        interpret_call(&"twice".to_string(), &vec![num(1)], &mut f, &mut c, FUEL),
        Err(RuntimeError::DanglingReference)
    );
    // and the name must be a readable reference
    assert_eq!(
        interpret_call(&"twice".to_string(), &vec![id("a")], &mut f, &mut c, FUEL),
        Err(RuntimeError::DanglingReference)
    );
}

#[test]
fn reference_parameter_named_like_its_argument() {
    // fn twice(p: &i32) -> i32 { *p * 2 }, called as twice(p)
    let mut f = interp_fn_context();
    let body = vec![value(op(unary(Opcode::DeRef, id("p")), Opcode::Mul, num(2)))];
    func_definition(&"twice".to_string(), &vec![param("p", ": &i32")], &body, &mut f);
    let mut c = interp_context();
    let stmts = vec![decl("a", num(4)), decl("p", unary(Opcode::Ref, id("a")))];
    assert_eq!(run(&mut c, stmts), Ok(Value::NoValue));
    assert_eq!(interpret_call(&"twice".to_string(), &vec![id("p")], &mut f, &mut c, FUEL), Ok(Value::Number(8)));
}

#[test]
fn callee_does_not_see_the_argument_name() {
    // fn leak(p: &i32) -> i32 { a }, called as leak(z) where z = &a
    let mut f = interp_fn_context();
    func_definition(&"leak".to_string(), &vec![param("p", ": &i32")], &vec![value(id("z"))], &mut f);
    let mut c = interp_context();
    let stmts = vec![decl("a", num(4)), decl("z", unary(Opcode::Ref, id("a")))];
    assert_eq!(run(&mut c, stmts), Ok(Value::NoValue));
    assert_eq!(
        interpret_call(&"leak".to_string(), &vec![id("z")], &mut f, &mut c, FUEL),
        Err(RuntimeError::UnboundName)
    );
}

#[test]
fn write_through_a_reference_parameter_is_lost_at_return() {
    // fn set(p: &mut i32) -> i32 { *p = 9; *p }
    let mut f = interp_fn_context();
    let body = vec![write("p", num(9)), value(unary(Opcode::DeRef, id("p")))];
    func_definition(&"set".to_string(), &vec![param("p", ": &mut i32")], &body, &mut f);
    let mut c = interp_context();
    let stmts = vec![decl("a", num(1)), decl("m", unary(Opcode::MutRef, id("a")))];
    assert_eq!(run(&mut c, stmts), Ok(Value::NoValue));
    // inside the callee the write is seen
    assert_eq!(interpret_call(&"set".to_string(), &vec![id("m")], &mut f, &mut c, FUEL), Ok(Value::Number(9)));
    // the caller's variable is as before
    assert_eq!(value_of(&c, "a"), Some(Value::Number(1)));
    assert_eq!(c.deref(&"m".to_string()), Ok(Value::Number(1)));
}

#[test]
fn shared_reference_parameter_cannot_be_written() {
    let mut f = interp_fn_context();
    let body = vec![write("p", num(9))];
    func_definition(&"set".to_string(), &vec![param("p", ": &bool")], &body, &mut f);
    let mut c = interp_context();
    let stmts = vec![decl("a", boolean(true)), decl("s", unary(Opcode::Ref, id("a")))];
    assert_eq!(run(&mut c, stmts), Ok(Value::NoValue));
    assert_eq!(
        interpret_call(&"set".to_string(), &vec![id("s")], &mut f, &mut c, FUEL),
        Err(RuntimeError::WriteRejected)
    );
}

#[test]
fn recursion_is_bounded_by_fuel() {
    // fn fact(n: i32) -> i32 { if n <= 1 { 1 } else { n * fact(n - 1) } }
    let body = vec![Box::new(Node::IfElse(
        op(id("n"), Opcode::LessOrEq, num(1)),
        vec![value(num(1))],
        vec![value(op(id("n"), Opcode::Mul, call("fact", vec![op(id("n"), Opcode::Sub, num(1))])))],
    ))];
    let fact = func("fact", vec![param("n", ": i32")], Some("i32"), body);
    let main = func("main", Vec::new(), None, vec![value(call("fact", vec![num(5)]))]);
    let program = vec![fact.clone(), main];
    assert_eq!(interpret_program(&program, FUEL), Ok(Value::Number(120)));
    assert_eq!(interpret_program(&program, 7), Ok(Value::Number(120)));
    assert_eq!(interpret_program(&program, 6), Err(RuntimeError::OutOfFuel));
    assert_eq!(interpret_program(&program, 0), Err(RuntimeError::OutOfFuel));
    // fn loop_forever() { loop_forever() }
    let forever = func("main", Vec::new(), None, vec![call("main", Vec::new())]);
    assert_eq!(interpret_program(&vec![forever], 200), Err(RuntimeError::OutOfFuel));
}

#[test]
fn program_needs_main() {
    let f = func("f", Vec::new(), None, Vec::new());
    assert_eq!(interpret_program(&vec![f], FUEL), Err(RuntimeError::UnknownFunction));
    assert_eq!(interpret_program(&Vec::new(), FUEL), Err(RuntimeError::UnknownFunction));
}

#[test]
fn later_definition_replaces_an_earlier_one() {
    let first = func("main", Vec::new(), None, vec![value(num(1))]);
    let second = func("main", Vec::new(), None, vec![value(num(2))]);
    assert_eq!(interpret_program(&vec![first, second], FUEL), Ok(Value::Number(2)));
}

#[test]
fn program_node_runs_in_a_fresh_state() {
    let mut c = interp_context();
    let mut f = interp_fn_context();
    c.insert(&"x".to_string(), &Value::Number(1));
    let main = func("main", Vec::new(), None, vec![decl("x", num(2)), value(id("x"))]);
    assert_eq!(interpret(&Node::Program(vec![main]), &mut c, &mut f, FUEL), Ok(Value::Number(2)));
    assert_eq!(value_of(&c, "x"), Some(Value::Number(1)));
    // the program's functions are not registered in the caller's table
    assert_eq!(
        interpret_call(&"main".to_string(), &Vec::new(), &mut f, &mut c, FUEL),
        Err(RuntimeError::UnknownFunction)
    );
}
