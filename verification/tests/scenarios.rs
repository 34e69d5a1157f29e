use minilang::ast::{copy_node, Node, Opcode};
use minilang::interpreter::{interpret_program, Value};
use minilang::typechecker::{type_check_program, Types};
use minilang::types::TypeError;
use minilang::values::RuntimeError;

fn num(n: i32) -> Box<Node> {
    Box::new(Node::Number(n))
}

fn id(s: &str) -> Box<Node> {
    Box::new(Node::ID(s.to_string()))
}

fn op(l: Box<Node>, o: Opcode, r: Box<Node>) -> Box<Node> {
    Box::new(Node::Op(l, o, r))
}

fn value(e: Box<Node>) -> Box<Node> {
    Box::new(Node::BlockValue(e))
}

fn decl(name: &str, mutable: bool, init: Box<Node>) -> Box<Node> {
    Box::new(Node::Declaration(name.to_string(), mutable, None, Some(init)))
}

fn assign(name: &str, e: Box<Node>) -> Box<Node> {
    Box::new(Node::Assign(name.to_string(), e))
}

fn func(name: &str, params: Vec<Box<Node>>, ret: Option<&str>, body: Vec<Box<Node>>) -> Box<Node> {
    Box::new(Node::FnDef(name.to_string(), params, ret.map(|s| s.to_string()), body))
}

/// Checks the program and runs it only if the check passed.
fn check_then_run(program: &Vec<Box<Node>>) -> Result<(Types, Result<Value, RuntimeError>), TypeError> {
    let t = type_check_program(program)?;
    Ok((t, interpret_program(program, 10_000)))
}

#[test]
fn counting_loop_checks_to_number_and_gives_ten() {
    // fn main() { let mut x = 0; while x < 10 { x = x + 1; }; x }
    let main = func(
        "main",
        Vec::new(),
        None,
        vec![
            decl("x", true, num(0)),
            Box::new(Node::While(
                op(id("x"), Opcode::Less, num(10)),
                vec![assign("x", op(id("x"), Opcode::Add, num(1)))],
            )),
            value(id("x")),
        ],
    );
    let program = vec![main];
    assert_eq!(type_check_program(&program), Ok(Types::Number));
    assert_eq!(interpret_program(&program, 10_000), Ok(Value::Number(10)));
    assert_eq!(check_then_run(&program), Ok((Types::Number, Ok(Value::Number(10)))));
}

#[test]
fn call_with_branches_checks_and_gives_ten() {
    // fn f(x: i32) -> i32 { if x <= 1 { 1 } else { x * 2 } }
    // fn main() { f(5) }
    let f = func(
        "f",
        vec![Box::new(Node::ParamDef("x".to_string(), ": i32".to_string()))],
        Some("i32"),
        vec![Box::new(Node::IfElse(
            op(id("x"), Opcode::LessOrEq, num(1)),
            vec![value(num(1))],
            vec![value(op(id("x"), Opcode::Mul, num(2)))],
        ))],
    );
    let main = func(
        "main",
        Vec::new(),
        None,
        vec![value(Box::new(Node::Call("f".to_string(), vec![num(5)])))],
    );
    let program = vec![f, main];
    assert_eq!(type_check_program(&program), Ok(Types::Number));
    assert_eq!(interpret_program(&program, 10_000), Ok(Value::Number(10)));
}

#[test]
fn assigning_a_number_to_a_boolean_fails_the_check() {
    // fn main() { let mut a = true; a = 5 }
    let main = func(
        "main",
        Vec::new(),
        None,
        vec![decl("a", true, Box::new(Node::Boolean(true))), value(assign("a", num(5)))],
    );
    let program = vec![main];
    assert_eq!(type_check_program(&program), Err(TypeError::TypeMismatch));
    assert_eq!(check_then_run(&program), Err(TypeError::TypeMismatch));
}

#[test]
fn assigning_to_an_immutable_boolean_fails_the_check() {
    // fn main() { let a = true; a = 5 }
    let main = func(
        "main",
        Vec::new(),
        None,
        vec![decl("a", false, Box::new(Node::Boolean(true))), value(assign("a", num(5)))],
    );
    let program = vec![main];
    assert_eq!(type_check_program(&program), Err(TypeError::ImmutableTarget));
    assert!(check_then_run(&program).is_err());
}

#[test]
fn call_of_an_unregistered_function_fails_the_check() {
    // fn main() { g(1) }
    let main = func(
        "main",
        Vec::new(),
        None,
        vec![value(Box::new(Node::Call("g".to_string(), vec![num(1)])))],
    );
    let program = vec![main];
    assert_eq!(type_check_program(&program), Err(TypeError::UnknownFunction));
    assert_eq!(check_then_run(&program), Err(TypeError::UnknownFunction));
}

#[test]
fn copy_of_a_tree_equals_the_tree() {
    let f = func(
        "f",
        vec![Box::new(Node::ParamDef("x".to_string(), ": i32".to_string()))],
        Some("i32"),
        vec![
            Box::new(Node::Declaration("y".to_string(), true, Some(": i32".to_string()), None)),
            Box::new(Node::WriteByRef(Opcode::DeRef, "r".to_string(), num(1))),
            Box::new(Node::IfStmt(id("c"), vec![Box::new(Node::Return(None))])),
            Box::new(Node::UnaryOp(Opcode::Not, Box::new(Node::Type("bool".to_string())))),
            Box::new(Node::Return(Some(id("x")))),
        ],
    );
    let program = Node::Program(vec![f]);
    assert_eq!(copy_node(&program), program);
    assert_eq!(program.clone(), program);
}
