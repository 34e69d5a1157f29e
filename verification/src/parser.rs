//! The parser: source text to syntax tree, proved to follow the grammar.

use vstd::prelude::*;
use crate::ast::{is_text, nodes_view, opt_str_view, Ast, Node, Opcode};
use crate::grammar::{
    annotation_at, any_word_at, bare_at, comparison_op, product_op, reserved, return_at, sum_op,
    sym_at, type_at, unexpected, word_at,
};
use crate::rules::{
    expression_of, function_of, program_of, rule_and, rule_and_tail, rule_args, rule_atom,
    rule_block, rule_comparison, rule_expr, rule_factor, rule_function, rule_functions, rule_if,
    rule_let, rule_let_init, rule_let_rest, rule_or_tail, rule_params, rule_product,
    rule_product_tail, rule_stmt, rule_stmts, rule_sum, rule_sum_tail, rule_while, statement_of,
    unfold_and, unfold_and_tail, unfold_args, unfold_atom, unfold_block, unfold_comparison,
    unfold_expr, unfold_factor, unfold_function, unfold_functions, unfold_if, unfold_let,
    unfold_let_init, unfold_let_rest, unfold_or_tail, unfold_params, unfold_product,
    unfold_product_tail, unfold_stmt, unfold_stmts, unfold_sum, unfold_sum_tail, unfold_while,
    whole,
};
use crate::lexer::{tokenize, tokens_of, tokens_view, ParseError, Symbol, Tok, Token};

verus! {

/// Whether the outcome `r` of a rule is what the grammar gives.
pub open spec fn same_node(g: Result<(Ast, int), ParseError>, r: Result<(Node, usize), ParseError>) -> bool {
    match r {
        Ok((node, q)) => g == Ok::<(Ast, int), ParseError>((node@, q as int)),
        Err(e) => g == Err::<(Ast, int), ParseError>(e),
    }
}

/// Whether the outcome `r` of a rule for a list is what the grammar gives.
pub open spec fn same_list(
    g: Result<(Seq<Ast>, int), ParseError>,
    r: Result<(Vec<Box<Node>>, usize), ParseError>,
) -> bool {
    match r {
        Ok((nodes, q)) => g == Ok::<(Seq<Ast>, int), ParseError>((nodes_view(nodes@), q as int)),
        Err(e) => g == Err::<(Seq<Ast>, int), ParseError>(e),
    }
}

/// Whether the outcome `r` of a rule for a text is what the grammar gives.
pub open spec fn same_text(g: Result<(Seq<char>, int), ParseError>, r: Result<(String, usize), ParseError>) -> bool {
    match r {
        Ok((text, q)) => g == Ok::<(Seq<char>, int), ParseError>((text@, q as int)),
        Err(e) => g == Err::<(Seq<char>, int), ParseError>(e),
    }
}

/// Whether a rule that started at `p` of `n` tokens ended behind `p`.
pub open spec fn moved<T>(r: Result<(T, usize), ParseError>, p: usize, n: usize) -> bool {
    r matches Ok((_, q)) ==> p < q <= n
}

/// The error for the token at `p`.
fn fail(p: usize) -> (e: ParseError)
    ensures
        e == unexpected(p as int),
{
    reveal(unexpected);
    ParseError::Unexpected(p)
}

/// Whether the token at `p + k` is the symbol `s`.
fn sym(toks: &Vec<Token>, p: usize, k: usize, s: Symbol) -> (r: bool)
    ensures
        r == sym_at(tokens_view(toks@), p + k, s),
        r ==> p + k < toks.len(),
{
    let n = toks.len();
    if k > usize::MAX - p || p + k >= n {
        return false;
    }
    assert(tokens_view(toks@)[p + k] == toks@[p + k]@);
    match &toks[p + k] {
        Token::Sym(t) => *t == s,
        _ => false,
    }
}

/// Whether the token at `p + k` is the word `w`.
fn word(toks: &Vec<Token>, p: usize, k: usize, w: &str) -> (r: bool)
    ensures
        r == word_at(tokens_view(toks@), p + k, w@),
        r ==> p + k < toks.len(),
{
    let n = toks.len();
    if k > usize::MAX - p || p + k >= n {
        return false;
    }
    assert(tokens_view(toks@)[p + k] == toks@[p + k]@);
    match &toks[p + k] {
        Token::Word(t) => is_text(t, w),
        _ => false,
    }
}

/// The word at `p + k`, if the token there is one.
fn word_of(toks: &Vec<Token>, p: usize, k: usize) -> (r: Option<&String>)
    ensures
        r is Some == any_word_at(tokens_view(toks@), p + k),
        r matches Some(w) ==> tokens_view(toks@)[p + k] == Tok::Word(w@),
        r is Some ==> p + k < toks.len(),
{
    let n = toks.len();
    if k > usize::MAX - p || p + k >= n {
        return None;
    }
    assert(tokens_view(toks@)[p + k] == toks@[p + k]@);
    match &toks[p + k] {
        Token::Word(t) => Some(t),
        _ => None,
    }
}

/// Whether the word is a keyword.
fn is_reserved(w: &String) -> (r: bool)
    ensures
        r == reserved(w@),
{
    reveal(reserved);
    is_text(w, "let") || is_text(w, "mut") || is_text(w, "if") || is_text(w, "else") || is_text(
        w,
        "while",
    ) || is_text(w, "return") || is_text(w, "fn") || is_text(w, "true") || is_text(w, "false")
}

/// The number of the type that starts at `p`, and the position after it.
fn read_type(toks: &Vec<Token>, p: usize) -> (r: Option<(u8, usize)>)
    ensures
        match r {
            Some((k, q)) => type_at(tokens_view(toks@), p as int) == Some((k as int, q as int)) && p
                < q <= toks.len() && k <= 5,
            None => type_at(tokens_view(toks@), p as int) is None,
        },
{
    reveal(type_at);
    if word(toks, p, 0, "i32") {
        Some((0, p + 1))
    } else if word(toks, p, 0, "bool") {
        Some((1, p + 1))
    } else if sym(toks, p, 0, Symbol::Amp) && word(toks, p, 1, "i32") {
        Some((2, p + 2))
    } else if sym(toks, p, 0, Symbol::Amp) && word(toks, p, 1, "bool") {
        Some((3, p + 2))
    } else if sym(toks, p, 0, Symbol::Amp) && word(toks, p, 1, "mut") && word(toks, p, 2, "i32") {
        Some((4, p + 3))
    } else if sym(toks, p, 0, Symbol::Amp) && word(toks, p, 1, "mut") && word(toks, p, 2, "bool") {
        Some((5, p + 3))
    } else {
        None
    }
}

/// The annotation that starts at `p`.
fn read_annotation(toks: &Vec<Token>, p: usize) -> (r: Result<(String, usize), ParseError>)
    ensures
        same_text(annotation_at(tokens_view(toks@), p as int), r),
        moved(r, p, toks.len()),
{
    reveal(annotation_at);
    if !sym(toks, p, 0, Symbol::Colon) {
        return Err(fail(p));
    }
    match read_type(toks, p + 1) {
        Some((k, q)) => {
            let text = if k == 0 {
                ": i32"
            } else if k == 1 {
                ": bool"
            } else if k == 2 {
                ": &i32"
            } else if k == 3 {
                ": &bool"
            } else if k == 4 {
                ": &mut i32"
            } else {
                ": &mut bool"
            };
            Ok((text.to_owned(), q))
        },
        None => Err(fail(p + 1)),
    }
}

/// The return type that starts at `p`.
fn read_return(toks: &Vec<Token>, p: usize) -> (r: Result<(String, usize), ParseError>)
    ensures
        same_text(return_at(tokens_view(toks@), p as int), r),
        moved(r, p, toks.len()),
{
    reveal(return_at);
    if sym(toks, p, 0, Symbol::LParen) && sym(toks, p, 1, Symbol::RParen) {
        return Ok(("()".to_owned(), p + 2));
    }
    match read_type(toks, p) {
        Some((k, q)) => {
            if k == 0 {
                Ok(("i32".to_owned(), q))
            } else if k == 1 {
                Ok(("bool".to_owned(), q))
            } else if k == 2 {
                Ok(("&i32".to_owned(), q))
            } else if k == 3 {
                Ok(("&bool".to_owned(), q))
            } else {
                Err(fail(p))
            }
        },
        None => Err(fail(p)),
    }
}

fn read_product_op(toks: &Vec<Token>, p: usize) -> (r: Option<Opcode>)
    ensures
        r == product_op(tokens_view(toks@), p as int),
        r is Some ==> p < toks.len(),
{
    if sym(toks, p, 0, Symbol::Star) {
        Some(Opcode::Mul)
    } else if sym(toks, p, 0, Symbol::Slash) {
        Some(Opcode::Div)
    } else if sym(toks, p, 0, Symbol::Percent) {
        Some(Opcode::Mod)
    } else {
        None
    }
}

fn read_sum_op(toks: &Vec<Token>, p: usize) -> (r: Option<Opcode>)
    ensures
        r == sum_op(tokens_view(toks@), p as int),
        r is Some ==> p < toks.len(),
{
    if sym(toks, p, 0, Symbol::Plus) {
        Some(Opcode::Add)
    } else if sym(toks, p, 0, Symbol::Minus) {
        Some(Opcode::Sub)
    } else {
        None
    }
}

fn read_comparison_op(toks: &Vec<Token>, p: usize) -> (r: Option<Opcode>)
    ensures
        r == comparison_op(tokens_view(toks@), p as int),
        r is Some ==> p < toks.len(),
{
    if sym(toks, p, 0, Symbol::EqEq) {
        Some(Opcode::Equals)
    } else if sym(toks, p, 0, Symbol::NotEq) {
        Some(Opcode::Neq)
    } else if sym(toks, p, 0, Symbol::Less) {
        Some(Opcode::Less)
    } else if sym(toks, p, 0, Symbol::LessEq) {
        Some(Opcode::LessOrEq)
    } else if sym(toks, p, 0, Symbol::Greater) {
        Some(Opcode::Greater)
    } else if sym(toks, p, 0, Symbol::GreaterEq) {
        Some(Opcode::GreaterorEq)
    } else {
        None
    }
}

/// Whether the statement at `p` is a bare expression.
fn is_bare(toks: &Vec<Token>, p: usize) -> (r: bool)
    ensures
        r == bare_at(tokens_view(toks@), p as int),
{
    reveal(bare_at);
    !(word(toks, p, 0, "let") || word(toks, p, 0, "return") || word(toks, p, 0, "if") || word(
        toks,
        p,
        0,
        "while",
    ) || (word_of(toks, p, 0).is_some() && sym(toks, p, 1, Symbol::Assign)) || (sym(
        toks,
        p,
        0,
        Symbol::Star,
    ) && word_of(toks, p, 1).is_some() && sym(toks, p, 2, Symbol::Assign)))
}

fn atom(toks: &Vec<Token>, p: usize) -> (r: Result<(Node, usize), ParseError>)
    ensures
        same_node(rule_atom(tokens_view(toks@), p as int), r),
        moved(r, p, toks.len()),
    decreases toks.len() - p, 20nat,
{
    proof {
        unfold_atom(tokens_view(toks@), p as int);
    }
    if p >= toks.len() {
        return Err(fail(p));
    }
    assert(tokens_view(toks@)[p as int] == toks@[p as int]@);
    match &toks[p] {
        Token::Number(n) => Ok((Node::Number(*n), p + 1)),
        Token::Word(w) => {
            if is_text(w, "true") {
                Ok((Node::Boolean(true), p + 1))
            } else if is_text(w, "false") {
                Ok((Node::Boolean(false), p + 1))
            } else if is_text(w, "if") {
                if_else(toks, p)
            } else if is_reserved(w) {
                Err(fail(p))
            } else if sym(toks, p, 1, Symbol::LParen) {
                let none: Vec<Box<Node>> = Vec::new();
                assert(nodes_view(none@) =~= Seq::<Ast>::empty());
                match args(toks, p + 2, none) {
                    Ok((list, q)) => Ok((Node::Call(w.clone(), list), q)),
                    Err(e) => Err(e),
                }
            } else {
                Ok((Node::ID(w.clone()), p + 1))
            }
        },
        Token::Sym(s) => {
            if *s == Symbol::LParen {
                match expr(toks, p + 1) {
                    Ok((e, q)) => {
                        if sym(toks, q, 0, Symbol::RParen) {
                            Ok((e, q + 1))
                        } else {
                            Err(fail(q))
                        }
                    },
                    Err(e) => Err(e),
                }
            } else {
                Err(fail(p))
            }
        },
    }
}

fn args(toks: &Vec<Token>, p: usize, acc: Vec<Box<Node>>) -> (r: Result<
    (Vec<Box<Node>>, usize),
    ParseError,
>)
    ensures
        same_list(rule_args(tokens_view(toks@), p as int, nodes_view(acc@)), r),
        moved(r, p, toks.len()),
    decreases toks.len() - p, 90nat,
{
    proof {
        unfold_args(tokens_view(toks@), p as int, nodes_view(acc@));
    }
    if sym(toks, p, 0, Symbol::RParen) {
        return Ok((acc, p + 1));
    }
    match expr(toks, p) {
        Ok((e, q)) => {
            let ghost before = nodes_view(acc@);
            let ghost ev = e@;
            let mut acc = acc;
            acc.push(Box::new(e));
            assert(nodes_view(acc@) =~= before.push(ev));
            if sym(toks, q, 0, Symbol::Comma) {
                args(toks, q + 1, acc)
            } else if sym(toks, q, 0, Symbol::RParen) {
                Ok((acc, q + 1))
            } else {
                Err(fail(q))
            }
        },
        Err(e) => Err(e),
    }
}

/// The unary operation `op` on the factor that starts at `q`.
fn prefixed(toks: &Vec<Token>, q: usize, op: Opcode) -> (r: Result<(Node, usize), ParseError>)
    requires
        0 < q <= toks.len(),
    ensures
        match r {
            Ok((node, n)) => rule_factor(tokens_view(toks@), q as int) matches Ok((e, m)) && m == n
                && node@ == Ast::UnaryOp(op, Box::new(e)) && q < n <= toks.len(),
            Err(e) => rule_factor(tokens_view(toks@), q as int) == Err::<(Ast, int), ParseError>(e),
        },
    decreases toks.len() - q, 40nat,
{
    match factor(toks, q) {
        Ok((e, n)) => Ok((Node::UnaryOp(op, Box::new(e)), n)),
        Err(e) => Err(e),
    }
}

fn factor(toks: &Vec<Token>, p: usize) -> (r: Result<(Node, usize), ParseError>)
    ensures
        same_node(rule_factor(tokens_view(toks@), p as int), r),
        moved(r, p, toks.len()),
    decreases toks.len() - p, 30nat,
{
    proof {
        unfold_factor(tokens_view(toks@), p as int);
    }
    if sym(toks, p, 0, Symbol::Minus) {
        prefixed(toks, p + 1, Opcode::UnarySub)
    } else if sym(toks, p, 0, Symbol::Bang) {
        prefixed(toks, p + 1, Opcode::Not)
    } else if sym(toks, p, 0, Symbol::Star) {
        prefixed(toks, p + 1, Opcode::DeRef)
    } else if sym(toks, p, 0, Symbol::Amp) {
        if word(toks, p, 1, "mut") {
            prefixed(toks, p + 2, Opcode::MutRef)
        } else {
            prefixed(toks, p + 1, Opcode::Ref)
        }
    } else {
        atom(toks, p)
    }
}

fn product_rest(toks: &Vec<Token>, p: usize, left: Node) -> (r: Result<(Node, usize), ParseError>)
    requires
        p <= toks.len(),
    ensures
        same_node(rule_product_tail(tokens_view(toks@), p as int, left@), r),
        r matches Ok((_, q)) ==> p <= q <= toks.len(),
    decreases toks.len() - p, 0nat,
{
    proof {
        unfold_product_tail(tokens_view(toks@), p as int, left@);
    }
    match read_product_op(toks, p) {
        Some(op) => match factor(toks, p + 1) {
            Ok((right, q)) => product_rest(toks, q, Node::Op(Box::new(left), op, Box::new(right))),
            Err(e) => Err(e),
        },
        None => Ok((left, p)),
    }
}

fn product(toks: &Vec<Token>, p: usize) -> (r: Result<(Node, usize), ParseError>)
    ensures
        same_node(rule_product(tokens_view(toks@), p as int), r),
        moved(r, p, toks.len()),
    decreases toks.len() - p, 40nat,
{
    proof {
        unfold_product(tokens_view(toks@), p as int);
    }
    match factor(toks, p) {
        Ok((left, q)) => product_rest(toks, q, left),
        Err(e) => Err(e),
    }
}

fn sum_rest(toks: &Vec<Token>, p: usize, left: Node) -> (r: Result<(Node, usize), ParseError>)
    requires
        p <= toks.len(),
    ensures
        same_node(rule_sum_tail(tokens_view(toks@), p as int, left@), r),
        r matches Ok((_, q)) ==> p <= q <= toks.len(),
    decreases toks.len() - p, 0nat,
{
    proof {
        unfold_sum_tail(tokens_view(toks@), p as int, left@);
    }
    match read_sum_op(toks, p) {
        Some(op) => match product(toks, p + 1) {
            Ok((right, q)) => sum_rest(toks, q, Node::Op(Box::new(left), op, Box::new(right))),
            Err(e) => Err(e),
        },
        None => Ok((left, p)),
    }
}

fn sum(toks: &Vec<Token>, p: usize) -> (r: Result<(Node, usize), ParseError>)
    ensures
        same_node(rule_sum(tokens_view(toks@), p as int), r),
        moved(r, p, toks.len()),
    decreases toks.len() - p, 50nat,
{
    proof {
        unfold_sum(tokens_view(toks@), p as int);
    }
    match product(toks, p) {
        Ok((left, q)) => sum_rest(toks, q, left),
        Err(e) => Err(e),
    }
}

fn comparison(toks: &Vec<Token>, p: usize) -> (r: Result<(Node, usize), ParseError>)
    ensures
        same_node(rule_comparison(tokens_view(toks@), p as int), r),
        moved(r, p, toks.len()),
    decreases toks.len() - p, 60nat,
{
    proof {
        unfold_comparison(tokens_view(toks@), p as int);
    }
    match sum(toks, p) {
        Ok((left, q)) => match read_comparison_op(toks, q) {
            Some(op) => match sum(toks, q + 1) {
                Ok((right, r)) => Ok((Node::Op(Box::new(left), op, Box::new(right)), r)),
                Err(e) => Err(e),
            },
            None => Ok((left, q)),
        },
        Err(e) => Err(e),
    }
}

fn and_rest(toks: &Vec<Token>, p: usize, left: Node) -> (r: Result<(Node, usize), ParseError>)
    requires
        p <= toks.len(),
    ensures
        same_node(rule_and_tail(tokens_view(toks@), p as int, left@), r),
        r matches Ok((_, q)) ==> p <= q <= toks.len(),
    decreases toks.len() - p, 0nat,
{
    proof {
        unfold_and_tail(tokens_view(toks@), p as int, left@);
    }
    if sym(toks, p, 0, Symbol::AndAnd) {
        match comparison(toks, p + 1) {
            Ok((right, q)) => and_rest(
                toks,
                q,
                Node::Op(Box::new(left), Opcode::And, Box::new(right)),
            ),
            Err(e) => Err(e),
        }
    } else {
        Ok((left, p))
    }
}

fn conjunction(toks: &Vec<Token>, p: usize) -> (r: Result<(Node, usize), ParseError>)
    ensures
        same_node(rule_and(tokens_view(toks@), p as int), r),
        moved(r, p, toks.len()),
    decreases toks.len() - p, 70nat,
{
    proof {
        unfold_and(tokens_view(toks@), p as int);
    }
    match comparison(toks, p) {
        Ok((left, q)) => and_rest(toks, q, left),
        Err(e) => Err(e),
    }
}

fn or_rest(toks: &Vec<Token>, p: usize, left: Node) -> (r: Result<(Node, usize), ParseError>)
    requires
        p <= toks.len(),
    ensures
        same_node(rule_or_tail(tokens_view(toks@), p as int, left@), r),
        r matches Ok((_, q)) ==> p <= q <= toks.len(),
    decreases toks.len() - p, 0nat,
{
    proof {
        unfold_or_tail(tokens_view(toks@), p as int, left@);
    }
    if sym(toks, p, 0, Symbol::OrOr) {
        match conjunction(toks, p + 1) {
            Ok((right, q)) => or_rest(toks, q, Node::Op(Box::new(left), Opcode::Or, Box::new(right))),
            Err(e) => Err(e),
        }
    } else {
        Ok((left, p))
    }
}

fn expr(toks: &Vec<Token>, p: usize) -> (r: Result<(Node, usize), ParseError>)
    ensures
        same_node(rule_expr(tokens_view(toks@), p as int), r),
        moved(r, p, toks.len()),
    decreases toks.len() - p, 80nat,
{
    proof {
        unfold_expr(tokens_view(toks@), p as int);
    }
    match conjunction(toks, p) {
        Ok((left, q)) => or_rest(toks, q, left),
        Err(e) => Err(e),
    }
}

fn if_else(toks: &Vec<Token>, p: usize) -> (r: Result<(Node, usize), ParseError>)
    ensures
        same_node(rule_if(tokens_view(toks@), p as int), r),
        moved(r, p, toks.len()),
    decreases toks.len() - p, 10nat,
{
    proof {
        unfold_if(tokens_view(toks@), p as int);
    }
    if !word(toks, p, 0, "if") {
        return Err(fail(p));
    }
    let (c, q) = match expr(toks, p + 1) {
        Ok(x) => x,
        Err(e) => {
            return Err(e);
        },
    };
    let (first, r) = match block(toks, q) {
        Ok(x) => x,
        Err(e) => {
            return Err(e);
        },
    };
    if word(toks, r, 0, "else") {
        match block(toks, r + 1) {
            Ok((second, s)) => Ok((Node::IfElse(Box::new(c), first, second), s)),
            Err(e) => Err(e),
        }
    } else {
        Ok((Node::IfStmt(Box::new(c), first), r))
    }
}

fn while_loop(toks: &Vec<Token>, p: usize) -> (r: Result<(Node, usize), ParseError>)
    ensures
        same_node(rule_while(tokens_view(toks@), p as int), r),
        moved(r, p, toks.len()),
    decreases toks.len() - p, 10nat,
{
    proof {
        unfold_while(tokens_view(toks@), p as int);
    }
    if !word(toks, p, 0, "while") {
        return Err(fail(p));
    }
    let (c, q) = match expr(toks, p + 1) {
        Ok(x) => x,
        Err(e) => {
            return Err(e);
        },
    };
    match block(toks, q) {
        Ok((body, r)) => Ok((Node::While(Box::new(c), body), r)),
        Err(e) => Err(e),
    }
}

fn declaration_init(
    toks: &Vec<Token>,
    p: usize,
    q: usize,
    name: String,
    mutable: bool,
    text: Option<String>,
) -> (r: Result<(Node, usize), ParseError>)
    requires
        p < q <= toks.len(),
    ensures
        same_node(
            rule_let_init(
                tokens_view(toks@),
                p as int,
                q as int,
                name@,
                mutable,
                opt_str_view(text),
            ),
            r,
        ),
        moved(r, p, toks.len()),
    decreases toks.len() - p, 3nat,
{
    proof {
        unfold_let_init(
            tokens_view(toks@),
            p as int,
            q as int,
            name@,
            mutable,
            opt_str_view(text),
        );
    }
    if sym(toks, q, 0, Symbol::Assign) {
        match expr(toks, q + 1) {
            Ok((e, r)) => Ok((Node::Declaration(name, mutable, text, Some(Box::new(e))), r)),
            Err(e) => Err(e),
        }
    } else {
        Ok((Node::Declaration(name, mutable, text, None), q))
    }
}

fn declaration_rest(toks: &Vec<Token>, p: usize, n: usize, name: String, mutable: bool) -> (r: Result<
    (Node, usize),
    ParseError,
>)
    requires
        p < n < toks.len(),
        tokens_view(toks@)[n as int] == Tok::Word(name@),
    ensures
        same_node(rule_let_rest(tokens_view(toks@), p as int, n as int, mutable), r),
        moved(r, p, toks.len()),
    decreases toks.len() - p, 5nat,
{
    proof {
        unfold_let_rest(tokens_view(toks@), p as int, n as int, mutable);
    }
    if sym(toks, n, 1, Symbol::Colon) {
        match read_annotation(toks, n + 1) {
            Ok((t, q)) => declaration_init(toks, p, q, name, mutable, Some(t)),
            Err(e) => Err(e),
        }
    } else {
        declaration_init(toks, p, n + 1, name, mutable, None)
    }
}

fn declaration(toks: &Vec<Token>, p: usize) -> (r: Result<(Node, usize), ParseError>)
    ensures
        same_node(rule_let(tokens_view(toks@), p as int), r),
        moved(r, p, toks.len()),
    decreases toks.len() - p, 10nat,
{
    proof {
        unfold_let(tokens_view(toks@), p as int);
    }
    if !word(toks, p, 0, "let") {
        return Err(fail(p));
    }
    let mutable = word(toks, p, 1, "mut");
    let n = if mutable {
        p + 2
    } else {
        p + 1
    };
    match word_of(toks, n, 0) {
        Some(w) => {
            if is_reserved(w) {
                Err(fail(n))
            } else {
                declaration_rest(toks, p, n, w.clone(), mutable)
            }
        },
        None => Err(fail(n)),
    }
}

fn statement(toks: &Vec<Token>, p: usize) -> (r: Result<(Node, usize), ParseError>)
    ensures
        same_node(rule_stmt(tokens_view(toks@), p as int), r),
        moved(r, p, toks.len()),
    decreases toks.len() - p, 100nat,
{
    proof {
        unfold_stmt(tokens_view(toks@), p as int);
    }
    if word(toks, p, 0, "let") {
        declaration(toks, p)
    } else if word(toks, p, 0, "return") {
        if p + 1 >= toks.len() || sym(toks, p, 1, Symbol::Semi) || sym(toks, p, 1, Symbol::RBrace) {
            Ok((Node::Return(None), p + 1))
        } else {
            match expr(toks, p + 1) {
                Ok((e, q)) => Ok((Node::Return(Some(Box::new(e))), q)),
                Err(e) => Err(e),
            }
        }
    } else if word(toks, p, 0, "if") {
        if_else(toks, p)
    } else if word(toks, p, 0, "while") {
        while_loop(toks, p)
    } else if sym(toks, p, 0, Symbol::Star) && word_of(toks, p, 1).is_some() && sym(
        toks,
        p,
        2,
        Symbol::Assign,
    ) {
        let name = match word_of(toks, p, 1) {
            Some(w) => w,
            None => {
                return Err(fail(p));
            },
        };
        if is_reserved(name) {
            return Err(fail(p + 1));
        }
        match expr(toks, p + 3) {
            Ok((e, q)) => Ok((Node::WriteByRef(Opcode::DeRef, name.clone(), Box::new(e)), q)),
            Err(e) => Err(e),
        }
    } else if word_of(toks, p, 0).is_some() && sym(toks, p, 1, Symbol::Assign) {
        let name = match word_of(toks, p, 0) {
            Some(w) => w,
            None => {
                return Err(fail(p));
            },
        };
        if is_reserved(name) {
            return Err(fail(p));
        }
        match expr(toks, p + 2) {
            Ok((e, q)) => Ok((Node::Assign(name.clone(), Box::new(e)), q)),
            Err(e) => Err(e),
        }
    } else {
        expr(toks, p)
    }
}

fn statements(toks: &Vec<Token>, p: usize, acc: Vec<Box<Node>>) -> (r: Result<
    (Vec<Box<Node>>, usize),
    ParseError,
>)
    ensures
        same_list(rule_stmts(tokens_view(toks@), p as int, nodes_view(acc@)), r),
        moved(r, p, toks.len()),
    decreases toks.len() - p, 110nat,
{
    proof {
        unfold_stmts(tokens_view(toks@), p as int, nodes_view(acc@));
    }
    if sym(toks, p, 0, Symbol::RBrace) {
        return Ok((acc, p + 1));
    }
    match statement(toks, p) {
        Ok((node, q)) => {
            let ghost before = nodes_view(acc@);
            let ghost n = node@;
            let mut acc = acc;
            if sym(toks, q, 0, Symbol::Semi) {
                acc.push(Box::new(node));
                assert(nodes_view(acc@) =~= before.push(n));
                statements(toks, q + 1, acc)
            } else if sym(toks, q, 0, Symbol::RBrace) {
                if is_bare(toks, p) {
                    acc.push(Box::new(Node::BlockValue(Box::new(node))));
                    assert(nodes_view(acc@) =~= before.push(Ast::BlockValue(Box::new(n))));
                } else {
                    acc.push(Box::new(node));
                    assert(nodes_view(acc@) =~= before.push(n));
                }
                Ok((acc, q + 1))
            } else {
                Err(fail(q))
            }
        },
        Err(e) => Err(e),
    }
}

fn block(toks: &Vec<Token>, p: usize) -> (r: Result<(Vec<Box<Node>>, usize), ParseError>)
    ensures
        same_list(rule_block(tokens_view(toks@), p as int), r),
        moved(r, p, toks.len()),
    decreases toks.len() - p, 120nat,
{
    proof {
        unfold_block(tokens_view(toks@), p as int);
    }
    if sym(toks, p, 0, Symbol::LBrace) {
        let empty: Vec<Box<Node>> = Vec::new();
        assert(nodes_view(empty@) =~= Seq::<Ast>::empty());
        statements(toks, p + 1, empty)
    } else {
        Err(fail(p))
    }
}

fn params(toks: &Vec<Token>, p: usize, acc: Vec<Box<Node>>) -> (r: Result<
    (Vec<Box<Node>>, usize),
    ParseError,
>)
    ensures
        same_list(rule_params(tokens_view(toks@), p as int, nodes_view(acc@)), r),
        moved(r, p, toks.len()),
    decreases toks.len() - p,
{
    proof {
        unfold_params(tokens_view(toks@), p as int, nodes_view(acc@));
    }
    if sym(toks, p, 0, Symbol::RParen) {
        return Ok((acc, p + 1));
    }
    let name = match word_of(toks, p, 0) {
        Some(w) => {
            if is_reserved(w) {
                return Err(fail(p));
            }
            w.clone()
        },
        None => {
            return Err(fail(p));
        },
    };
    match read_annotation(toks, p + 1) {
        Ok((text, q)) => {
            let ghost before = nodes_view(acc@);
            let ghost param = Ast::ParamDef(name@, text@);
            let mut acc = acc;
            acc.push(Box::new(Node::ParamDef(name, text)));
            assert(nodes_view(acc@) =~= before.push(param));
            if sym(toks, q, 0, Symbol::Comma) {
                params(toks, q + 1, acc)
            } else if sym(toks, q, 0, Symbol::RParen) {
                Ok((acc, q + 1))
            } else {
                Err(fail(q))
            }
        },
        Err(e) => Err(e),
    }
}

fn function(toks: &Vec<Token>, p: usize) -> (r: Result<(Node, usize), ParseError>)
    ensures
        same_node(rule_function(tokens_view(toks@), p as int), r),
        moved(r, p, toks.len()),
{
    proof {
        unfold_function(tokens_view(toks@), p as int);
    }
    let name = match word_of(toks, p, 0) {
        Some(w) => {
            if is_reserved(w) {
                return Err(fail(p));
            }
            w.clone()
        },
        None => {
            return Err(fail(p));
        },
    };
    if !sym(toks, p, 1, Symbol::LParen) {
        return Err(fail(p + 1));
    }
    let none: Vec<Box<Node>> = Vec::new();
    assert(nodes_view(none@) =~= Seq::<Ast>::empty());
    let (list, q) = match params(toks, p + 2, none) {
        Ok(x) => x,
        Err(e) => {
            return Err(e);
        },
    };
    let (ret, r) = if sym(toks, q, 0, Symbol::Arrow) {
        match read_return(toks, q + 1) {
            Ok((t, r)) => (Some(t), r),
            Err(e) => {
                return Err(e);
            },
        }
    } else {
        (None, q)
    };
    match block(toks, r) {
        Ok((body, s)) => Ok((Node::FnDef(name, list, ret, body), s)),
        Err(e) => Err(e),
    }
}

/// The outcome of a rule that must cover every token.
fn to_the_end(toks: &Vec<Token>, r: Result<(Node, usize), ParseError>) -> (out: Result<
    Node,
    ParseError,
>)
    ensures
        forall|g: Result<(Ast, int), ParseError>| #[trigger]
            same_node(g, r) ==> match out {
                Ok(node) => whole(tokens_view(toks@), g) == Ok::<Ast, ParseError>(node@),
                Err(e) => whole(tokens_view(toks@), g) == Err::<Ast, ParseError>(e),
            },
{
    match r {
        Ok((node, q)) => {
            if q == toks.len() {
                Ok(node)
            } else {
                Err(fail(q))
            }
        },
        Err(e) => Err(e),
    }
}

/// Whether the tree `r` is what the grammar gives.
pub open spec fn same_tree(g: Result<Ast, ParseError>, r: Result<Node, ParseError>) -> bool {
    match r {
        Ok(node) => g == Ok::<Ast, ParseError>(node@),
        Err(e) => g == Err::<Ast, ParseError>(e),
    }
}

/// Parses an expression.
pub fn parse_expression(text: &str) -> (r: Result<Node, ParseError>)
    ensures
        same_tree(expression_of(text@), r),
{
    let toks = match tokenize(text) {
        Ok(t) => t,
        Err(e) => {
            return Err(e);
        },
    };
    let step = expr(&toks, 0);
    assert(same_node(rule_expr(tokens_view(toks@), 0), step));
    to_the_end(&toks, step)
}

/// Parses a statement.
pub fn parse_statement(text: &str) -> (r: Result<Node, ParseError>)
    ensures
        same_tree(statement_of(text@), r),
{
    let toks = match tokenize(text) {
        Ok(t) => t,
        Err(e) => {
            return Err(e);
        },
    };
    let step = statement(&toks, 0);
    assert(same_node(rule_stmt(tokens_view(toks@), 0), step));
    to_the_end(&toks, step)
}

/// Parses a function definition that is written without the keyword `fn`.
pub fn parse_function_definition(text: &str) -> (r: Result<Node, ParseError>)
    ensures
        same_tree(function_of(text@), r),
{
    let toks = match tokenize(text) {
        Ok(t) => t,
        Err(e) => {
            return Err(e);
        },
    };
    let step = function(&toks, 0);
    assert(same_node(rule_function(tokens_view(toks@), 0), step));
    to_the_end(&toks, step)
}

/// Parses a program: a list of function definitions, each behind `fn`.
pub fn parse_program(text: &str) -> (r: Result<Node, ParseError>)
    ensures
        same_tree(program_of(text@), r),
{
    let toks = match tokenize(text) {
        Ok(t) => t,
        Err(e) => {
            return Err(e);
        },
    };
    let ghost tv = tokens_view(toks@);
    let mut fns: Vec<Box<Node>> = Vec::new();
    let mut p: usize = 0;
    assert(nodes_view(fns@) =~= Seq::<Ast>::empty());
    while p < toks.len()
        invariant
            p <= toks.len(),
            tv == tokens_view(toks@),
            tokens_of(text@) == Ok::<Seq<Tok>, ParseError>(tv),
            rule_functions(tv, 0, Seq::empty()) == rule_functions(tv, p as int, nodes_view(fns@)),
        decreases toks.len() - p,
    {
        proof {
            unfold_functions(tv, p as int, nodes_view(fns@));
        }
        if !word(&toks, p, 0, "fn") {
            return Err(fail(p));
        }
        match function(&toks, p + 1) {
            Ok((f, q)) => {
                let ghost before = nodes_view(fns@);
                let ghost fv = f@;
                fns.push(Box::new(f));
                assert(nodes_view(fns@) =~= before.push(fv));
                p = q;
            },
            Err(e) => {
                return Err(e);
            },
        }
    }
    proof {
        unfold_functions(tv, p as int, nodes_view(fns@));
    }
    Ok(Node::Program(fns))
}

} // verus!
