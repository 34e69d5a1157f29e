use minilang::ast::{Node, Opcode};
use minilang::render::number_to_text;

fn num(n: i32) -> Box<Node> {
    Box::new(Node::Number(n))
}

fn op(l: Box<Node>, o: Opcode, r: Box<Node>) -> Box<Node> {
    Box::new(Node::Op(l, o, r))
}

#[test]
fn operator_symbols() {
    assert_eq!(Opcode::Add.symbol(), Some("+"));
    assert_eq!(Opcode::Sub.symbol(), Some("-"));
    assert_eq!(Opcode::Mul.symbol(), Some("*"));
    assert_eq!(Opcode::Div.symbol(), Some("/"));
    assert_eq!(Opcode::Mod.symbol(), Some("%"));
    assert_eq!(Opcode::Less.symbol(), Some("<"));
    assert_eq!(Opcode::Greater.symbol(), Some(">"));
    assert_eq!(Opcode::LessOrEq.symbol(), Some("<="));
    assert_eq!(Opcode::GreaterorEq.symbol(), Some(">="));
    assert_eq!(Opcode::Equals.symbol(), Some("=="));
    assert_eq!(Opcode::Neq.symbol(), Some("!="));
    assert_eq!(Opcode::And.symbol(), None);
    assert_eq!(Opcode::DeRef.symbol(), None);
}

#[test]
fn numbers_in_decimal() {
    assert_eq!(number_to_text(0), "0");
    assert_eq!(number_to_text(7), "7");
    assert_eq!(number_to_text(10), "10");
    assert_eq!(number_to_text(12313), "12313");
    assert_eq!(number_to_text(-45), "-45");
    assert_eq!(number_to_text(i32::MAX), "2147483647");
    assert_eq!(number_to_text(i32::MIN), "-2147483648");
}

#[test]
fn expressions_with_their_brackets() {
    // 5+6*7
    let a = op(num(5), Opcode::Add, op(num(6), Opcode::Mul, num(7)));
    assert_eq!(a.text(), Some("(5 + (6 * 7))".to_string()));
    // 22 * 44 + 66
    let b = op(op(num(22), Opcode::Mul, num(44)), Opcode::Add, num(66));
    assert_eq!(b.text(), Some("((22 * 44) + 66)".to_string()));
    // 22 + 44 * 66
    let c = op(num(22), Opcode::Add, op(num(44), Opcode::Mul, num(66)));
    assert_eq!(c.text(), Some("(22 + (44 * 66))".to_string()));
    let d = op(Box::new(Node::ID("x".to_string())), Opcode::LessOrEq, num(-1));
    assert_eq!(d.text(), Some("(x <= -1)".to_string()));
}

#[test]
fn assignment_text() {
    let a = Node::Assign("x".to_string(), num(7));
    assert_eq!(a.text(), Some("let x = 7;".to_string()));
}

#[test]
fn nodes_without_text() {
    assert_eq!(Node::Boolean(true).text(), None);
    assert_eq!(op(num(1), Opcode::And, num(2)).text(), None);
    assert_eq!(op(num(1), Opcode::Add, Box::new(Node::Boolean(true))).text(), None);
    assert_eq!(Node::Assign("x".to_string(), Box::new(Node::Return(None))).text(), None);
}
