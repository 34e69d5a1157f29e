//! The text form of operators and of simple expressions.

use vstd::prelude::*;
use vstd::string::StringExecFns;
use crate::ast::{Ast, Node, Opcode};

verus! {

/// The character of a decimal digit.
pub open spec fn digit_char(d: nat) -> char {
    if d == 0 {
        '0'
    } else if d == 1 {
        '1'
    } else if d == 2 {
        '2'
    } else if d == 3 {
        '3'
    } else if d == 4 {
        '4'
    } else if d == 5 {
        '5'
    } else if d == 6 {
        '6'
    } else if d == 7 {
        '7'
    } else if d == 8 {
        '8'
    } else {
        '9'
    }
}

/// The decimal digits of a natural number, most significant first.
pub open spec fn digits(n: nat) -> Seq<char>
    decreases n,
{
    if n < 10 {
        seq![digit_char(n)]
    } else {
        digits(n / 10).push(digit_char(n % 10))
    }
}

/// The decimal text of an integer.
pub open spec fn number_text(n: int) -> Seq<char> {
    if n < 0 {
        seq!['-'] + digits((-n) as nat)
    } else {
        digits(n as nat)
    }
}

/// The symbol of a binary operator of arithmetic or comparison. The other
/// operators have no text form.
pub open spec fn opcode_text(op: Opcode) -> Option<Seq<char>> {
    match op {
        Opcode::Add => Some("+"@),
        Opcode::Sub => Some("-"@),
        Opcode::Mul => Some("*"@),
        Opcode::Div => Some("/"@),
        Opcode::Mod => Some("%"@),
        Opcode::Less => Some("<"@),
        Opcode::Greater => Some(">"@),
        Opcode::LessOrEq => Some("<="@),
        Opcode::GreaterorEq => Some(">="@),
        Opcode::Equals => Some("=="@),
        Opcode::Neq => Some("!="@),
        _ => None,
    }
}

/// The text of a node: a number in decimal, a name as it is, a binary
/// expression as `(left op right)`, an assignment as `let name = value;`.
/// The other nodes, and nodes with a part that has no text, have none.
pub open spec fn node_text(node: Ast) -> Option<Seq<char>>
    decreases node,
{
    match node {
        Ast::Number(n) => Some(number_text(n as int)),
        Ast::ID(name) => Some(name),
        Ast::Op(l, op, r) => match (node_text(*l), opcode_text(op), node_text(*r)) {
            (Some(a), Some(o), Some(b)) => Some("("@ + a + " "@ + o + " "@ + b + ")"@),
            _ => None,
        },
        Ast::Assign(name, e) => match node_text(*e) {
            Some(b) => Some("let "@ + name + " = "@ + b + ";"@),
            None => None,
        },
        _ => None,
    }
}

/// The text of one decimal digit.
fn digit_text(d: u64) -> (r: &'static str)
    requires
        d < 10,
    ensures
        r@ == seq![digit_char(d as nat)],
{
    proof {
        reveal_strlit("0");
        reveal_strlit("1");
        reveal_strlit("2");
        reveal_strlit("3");
        reveal_strlit("4");
        reveal_strlit("5");
        reveal_strlit("6");
        reveal_strlit("7");
        reveal_strlit("8");
        reveal_strlit("9");
    }
    let r = if d == 0 {
        "0"
    } else if d == 1 {
        "1"
    } else if d == 2 {
        "2"
    } else if d == 3 {
        "3"
    } else if d == 4 {
        "4"
    } else if d == 5 {
        "5"
    } else if d == 6 {
        "6"
    } else if d == 7 {
        "7"
    } else if d == 8 {
        "8"
    } else {
        "9"
    };
    assert(r@ =~= seq![digit_char(d as nat)]);
    r
}

/// Appends the decimal digits of `n` to `out`.
fn push_digits(n: u64, out: &mut String)
    ensures
        final(out)@ == old(out)@ + digits(n as nat),
    decreases n,
{
    if n >= 10 {
        push_digits(n / 10, out);
    }
    out.append(digit_text(n % 10));
    assert(out@ =~= old(out)@ + digits(n as nat));
}

/// The decimal text of a number.
pub fn number_to_text(n: i32) -> (r: String)
    ensures
        r@ == number_text(n as int),
{
    let mut out = String::new();
    if n < 0 {
        proof {
            reveal_strlit("-");
        }
        out.append("-");
        push_digits((-(n as i64)) as u64, &mut out);
    } else {
        push_digits(n as u64, &mut out);
    }
    assert(out@ =~= number_text(n as int));
    out
}

impl Opcode {
    /// The symbol of the operator, if it has one.
    pub fn symbol(&self) -> (r: Option<&'static str>)
        ensures
            match r {
                Some(s) => opcode_text(*self) == Some(s@),
                None => opcode_text(*self) is None,
            },
    {
        match self {
            Opcode::Add => Some("+"),
            Opcode::Sub => Some("-"),
            Opcode::Mul => Some("*"),
            Opcode::Div => Some("/"),
            Opcode::Mod => Some("%"),
            Opcode::Less => Some("<"),
            Opcode::Greater => Some(">"),
            Opcode::LessOrEq => Some("<="),
            Opcode::GreaterorEq => Some(">="),
            Opcode::Equals => Some("=="),
            Opcode::Neq => Some("!="),
            _ => None,
        }
    }
}

impl Node {
    /// The text of the node, if it has one.
    pub fn text(&self) -> (r: Option<String>)
        ensures
            match r {
                Some(s) => node_text(self@) == Some(s@),
                None => node_text(self@) is None,
            },
        decreases *self,
    {
        match self {
            Node::Number(n) => Some(number_to_text(*n)),
            Node::ID(name) => Some(name.clone()),
            Node::Op(l, op, r) => {
                let a = match l.text() {
                    Some(a) => a,
                    None => {
                        return None;
                    },
                };
                let o = match op.symbol() {
                    Some(o) => o,
                    None => {
                        return None;
                    },
                };
                let b = match r.text() {
                    Some(b) => b,
                    None => {
                        return None;
                    },
                };
                let mut out = String::new();
                out.append("(");
                out.append(a.as_str());
                out.append(" ");
                out.append(o);
                out.append(" ");
                out.append(b.as_str());
                out.append(")");
                assert(out@ =~= "("@ + a@ + " "@ + o@ + " "@ + b@ + ")"@);
                Some(out)
            },
            Node::Assign(name, e) => {
                let b = match e.text() {
                    Some(b) => b,
                    None => {
                        return None;
                    },
                };
                let mut out = String::new();
                out.append("let ");
                out.append(name.as_str());
                out.append(" = ");
                out.append(b.as_str());
                out.append(";");
                assert(out@ =~= "let "@ + name@ + " = "@ + b@ + ";"@);
                Some(out)
            },
            _ => None,
        }
    }
}

} // verus!
