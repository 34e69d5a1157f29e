//! The grammar: each rule is a function from a token sequence and a position
//! to the syntax tree that starts there and the position after it, or to the
//! position of the token that cannot stand where it stands.
//!
//! Every rule that goes on at a position that another rule returned does so
//! through `advance`, which accepts the position only if it lies behind the
//! rule's own start and within the tokens. That makes it evident that every
//! rule ends; that it never rejects an outcome is proved in `progress`.

use vstd::prelude::*;
use crate::ast::{Ast, Opcode};
use crate::lexer::{ParseError, Symbol, Tok};

verus! {

/// Whether the token at `p` is the symbol `s`.
pub open spec fn sym_at(toks: Seq<Tok>, p: int, s: Symbol) -> bool {
    0 <= p < toks.len() && toks[p] == Tok::Sym(s)
}

/// Whether the token at `p` is the word `w`.
pub open spec fn word_at(toks: Seq<Tok>, p: int, w: Seq<char>) -> bool {
    0 <= p < toks.len() && toks[p] == Tok::Word(w)
}

/// Whether the token at `p` is a word.
pub open spec fn any_word_at(toks: Seq<Tok>, p: int) -> bool {
    0 <= p < toks.len() && toks[p] is Word
}

/// The error for the token at `p`.
#[verifier::opaque]
pub open spec fn unexpected(p: int) -> ParseError {
    ParseError::Unexpected(p as usize)
}

/// Whether the word is a keyword, which cannot be a name.
#[verifier::opaque]
pub open spec fn reserved(w: Seq<char>) -> bool {
    w == "let"@ || w == "mut"@ || w == "if"@ || w == "else"@ || w == "while"@ || w == "return"@
        || w == "fn"@ || w == "true"@ || w == "false"@
}

/// The outcome `r` of a rule that started at `p`, accepted only with a
/// position behind `p` and within the `n` tokens.
pub open spec fn advance<T>(r: Result<(T, int), ParseError>, p: int, n: nat) -> Result<
    (T, int),
    ParseError,
> {
    match r {
        Ok((_, q)) => if p < q <= n {
            r
        } else {
            Err(unexpected(p))
        },
        Err(_) => r,
    }
}

/// The type that starts at `p`, by its number, and the position after it:
/// 0 `i32`, 1 `bool`, 2 `&i32`, 3 `&bool`, 4 `&mut i32`, 5 `&mut bool`.
#[verifier::opaque]
pub open spec fn type_at(toks: Seq<Tok>, p: int) -> Option<(int, int)> {
    if word_at(toks, p, "i32"@) {
        Some((0, p + 1))
    } else if word_at(toks, p, "bool"@) {
        Some((1, p + 1))
    } else if sym_at(toks, p, Symbol::Amp) && word_at(toks, p + 1, "i32"@) {
        Some((2, p + 2))
    } else if sym_at(toks, p, Symbol::Amp) && word_at(toks, p + 1, "bool"@) {
        Some((3, p + 2))
    } else if sym_at(toks, p, Symbol::Amp) && word_at(toks, p + 1, "mut"@) && word_at(
        toks,
        p + 2,
        "i32"@,
    ) {
        Some((4, p + 3))
    } else if sym_at(toks, p, Symbol::Amp) && word_at(toks, p + 1, "mut"@) && word_at(
        toks,
        p + 2,
        "bool"@,
    ) {
        Some((5, p + 3))
    } else {
        None
    }
}

/// The annotation text of the type with the number `k` of `type_at`.
pub open spec fn annotation_text(k: int) -> Seq<char> {
    if k == 0 {
        ": i32"@
    } else if k == 1 {
        ": bool"@
    } else if k == 2 {
        ": &i32"@
    } else if k == 3 {
        ": &bool"@
    } else if k == 4 {
        ": &mut i32"@
    } else {
        ": &mut bool"@
    }
}

/// The annotation `: type` that starts at `p`, as the text that the syntax
/// tree keeps, and the position after it.
#[verifier::opaque]
pub open spec fn annotation_at(toks: Seq<Tok>, p: int) -> Result<(Seq<char>, int), ParseError> {
    if !sym_at(toks, p, Symbol::Colon) {
        Err(unexpected(p))
    } else {
        match type_at(toks, p + 1) {
            Some((k, q)) => Ok((annotation_text(k), q)),
            None => Err(unexpected(p + 1)),
        }
    }
}

/// The return type that starts at `p`, as the text that the syntax tree
/// keeps, and the position after it.
#[verifier::opaque]
pub open spec fn return_at(toks: Seq<Tok>, p: int) -> Result<(Seq<char>, int), ParseError> {
    if sym_at(toks, p, Symbol::LParen) && sym_at(toks, p + 1, Symbol::RParen) {
        Ok(("()"@, p + 2))
    } else {
        match type_at(toks, p) {
            Some((k, q)) => if k == 0 {
                Ok(("i32"@, q))
            } else if k == 1 {
                Ok(("bool"@, q))
            } else if k == 2 {
                Ok(("&i32"@, q))
            } else if k == 3 {
                Ok(("&bool"@, q))
            } else {
                Err(unexpected(p))
            },
            None => Err(unexpected(p)),
        }
    }
}

/// The operator of a product at `p`.
pub open spec fn product_op(toks: Seq<Tok>, p: int) -> Option<Opcode> {
    if sym_at(toks, p, Symbol::Star) {
        Some(Opcode::Mul)
    } else if sym_at(toks, p, Symbol::Slash) {
        Some(Opcode::Div)
    } else if sym_at(toks, p, Symbol::Percent) {
        Some(Opcode::Mod)
    } else {
        None
    }
}

/// The operator of a sum at `p`.
pub open spec fn sum_op(toks: Seq<Tok>, p: int) -> Option<Opcode> {
    if sym_at(toks, p, Symbol::Plus) {
        Some(Opcode::Add)
    } else if sym_at(toks, p, Symbol::Minus) {
        Some(Opcode::Sub)
    } else {
        None
    }
}

/// The operator of a comparison at `p`.
pub open spec fn comparison_op(toks: Seq<Tok>, p: int) -> Option<Opcode> {
    if sym_at(toks, p, Symbol::EqEq) {
        Some(Opcode::Equals)
    } else if sym_at(toks, p, Symbol::NotEq) {
        Some(Opcode::Neq)
    } else if sym_at(toks, p, Symbol::Less) {
        Some(Opcode::Less)
    } else if sym_at(toks, p, Symbol::LessEq) {
        Some(Opcode::LessOrEq)
    } else if sym_at(toks, p, Symbol::Greater) {
        Some(Opcode::Greater)
    } else if sym_at(toks, p, Symbol::GreaterEq) {
        Some(Opcode::GreaterorEq)
    } else {
        None
    }
}

/// Whether the statement at `p` is an assignment `name = ...`.
pub open spec fn assign_form(toks: Seq<Tok>, p: int) -> bool {
    any_word_at(toks, p) && sym_at(toks, p + 1, Symbol::Assign)
}

/// Whether the statement at `p` is a write `*name = ...`.
pub open spec fn write_form(toks: Seq<Tok>, p: int) -> bool {
    sym_at(toks, p, Symbol::Star) && any_word_at(toks, p + 1) && sym_at(toks, p + 2, Symbol::Assign)
}

/// Whether the statement at `p` is a bare expression, whose value is the
/// value of the block that it ends.
#[verifier::opaque]
pub open spec fn bare_at(toks: Seq<Tok>, p: int) -> bool {
    !(word_at(toks, p, "let"@) || word_at(toks, p, "return"@) || word_at(toks, p, "if"@)
        || word_at(toks, p, "while"@) || assign_form(toks, p) || write_form(toks, p))
}

/// atom := number | `true` | `false` | if | name `(` args | name | `(` expr `)`
pub open spec fn parse_atom(toks: Seq<Tok>, p: int) -> Result<(Ast, int), ParseError>
    decreases toks.len() - p, 2nat,
{
    if p < 0 || p >= toks.len() {
        Err(unexpected(p))
    } else {
        match toks[p] {
            Tok::Number(n) => Ok((Ast::Number(n), p + 1)),
            Tok::Word(w) => if w == "true"@ {
                Ok((Ast::Boolean(true), p + 1))
            } else if w == "false"@ {
                Ok((Ast::Boolean(false), p + 1))
            } else if w == "if"@ {
                parse_if(toks, p)
            } else if reserved(w) {
                Err(unexpected(p))
            } else if sym_at(toks, p + 1, Symbol::LParen) {
                match parse_args(toks, p + 2, Seq::empty()) {
                    Ok((args, q)) => Ok((Ast::Call(w, args), q)),
                    Err(e) => Err(e),
                }
            } else {
                Ok((Ast::ID(w), p + 1))
            },
            Tok::Sym(s) => if s == Symbol::LParen {
                match advance(parse_expr(toks, p + 1), p, toks.len()) {
                    Ok((e, q)) => if sym_at(toks, q, Symbol::RParen) {
                        Ok((e, q + 1))
                    } else {
                        Err(unexpected(q))
                    },
                    Err(e) => Err(e),
                }
            } else {
                Err(unexpected(p))
            },
        }
    }
}

/// args := `)` | expr `)` | expr `,` args
pub open spec fn parse_args(toks: Seq<Tok>, p: int, acc: Seq<Ast>) -> Result<
    (Seq<Ast>, int),
    ParseError,
>
    decreases toks.len() - p, 9nat,
{
    if p < 0 {
        Err(unexpected(p))
    } else if sym_at(toks, p, Symbol::RParen) {
        Ok((acc, p + 1))
    } else {
        match advance(parse_expr(toks, p), p, toks.len()) {
            Ok((e, q)) => if sym_at(toks, q, Symbol::Comma) {
                parse_args(toks, q + 1, acc.push(e))
            } else if sym_at(toks, q, Symbol::RParen) {
                Ok((acc.push(e), q + 1))
            } else {
                Err(unexpected(q))
            },
            Err(e) => Err(e),
        }
    }
}

/// factor := `-` factor | `!` factor | `*` factor | `&` `mut` factor | `&` factor | atom
pub open spec fn parse_factor(toks: Seq<Tok>, p: int) -> Result<(Ast, int), ParseError>
    decreases toks.len() - p, 3nat,
{
    if p < 0 {
        Err(unexpected(p))
    } else if sym_at(toks, p, Symbol::Minus) {
        match parse_factor(toks, p + 1) {
            Ok((e, q)) => Ok((Ast::UnaryOp(Opcode::UnarySub, Box::new(e)), q)),
            Err(e) => Err(e),
        }
    } else if sym_at(toks, p, Symbol::Bang) {
        match parse_factor(toks, p + 1) {
            Ok((e, q)) => Ok((Ast::UnaryOp(Opcode::Not, Box::new(e)), q)),
            Err(e) => Err(e),
        }
    } else if sym_at(toks, p, Symbol::Star) {
        match parse_factor(toks, p + 1) {
            Ok((e, q)) => Ok((Ast::UnaryOp(Opcode::DeRef, Box::new(e)), q)),
            Err(e) => Err(e),
        }
    } else if sym_at(toks, p, Symbol::Amp) {
        if word_at(toks, p + 1, "mut"@) {
            match parse_factor(toks, p + 2) {
                Ok((e, q)) => Ok((Ast::UnaryOp(Opcode::MutRef, Box::new(e)), q)),
                Err(e) => Err(e),
            }
        } else {
            match parse_factor(toks, p + 1) {
                Ok((e, q)) => Ok((Ast::UnaryOp(Opcode::Ref, Box::new(e)), q)),
                Err(e) => Err(e),
            }
        }
    } else {
        parse_atom(toks, p)
    }
}

/// The rest of a product whose left side is `left`: (`*` | `/` | `%`) factor ...
pub open spec fn product_tail(toks: Seq<Tok>, p: int, left: Ast) -> Result<(Ast, int), ParseError>
    decreases toks.len() - p, 0nat,
{
    match product_op(toks, p) {
        Some(op) => match advance(parse_factor(toks, p + 1), p, toks.len()) {
            Ok((right, q)) => product_tail(toks, q, Ast::Op(Box::new(left), op, Box::new(right))),
            Err(e) => Err(e),
        },
        None => Ok((left, p)),
    }
}

/// product := factor ((`*` | `/` | `%`) factor)*, grouped from the left
pub open spec fn parse_product(toks: Seq<Tok>, p: int) -> Result<(Ast, int), ParseError>
    decreases toks.len() - p, 4nat,
{
    match advance(parse_factor(toks, p), p, toks.len()) {
        Ok((left, q)) => product_tail(toks, q, left),
        Err(e) => Err(e),
    }
}

/// The rest of a sum whose left side is `left`: (`+` | `-`) product ...
pub open spec fn sum_tail(toks: Seq<Tok>, p: int, left: Ast) -> Result<(Ast, int), ParseError>
    decreases toks.len() - p, 0nat,
{
    match sum_op(toks, p) {
        Some(op) => match advance(parse_product(toks, p + 1), p, toks.len()) {
            Ok((right, q)) => sum_tail(toks, q, Ast::Op(Box::new(left), op, Box::new(right))),
            Err(e) => Err(e),
        },
        None => Ok((left, p)),
    }
}

/// sum := product ((`+` | `-`) product)*, grouped from the left
pub open spec fn parse_sum(toks: Seq<Tok>, p: int) -> Result<(Ast, int), ParseError>
    decreases toks.len() - p, 5nat,
{
    match advance(parse_product(toks, p), p, toks.len()) {
        Ok((left, q)) => sum_tail(toks, q, left),
        Err(e) => Err(e),
    }
}

/// comparison := sum ((`==` | `!=` | `<` | `<=` | `>` | `>=`) sum)?
pub open spec fn parse_comparison(toks: Seq<Tok>, p: int) -> Result<(Ast, int), ParseError>
    decreases toks.len() - p, 6nat,
{
    match advance(parse_sum(toks, p), p, toks.len()) {
        Ok((left, q)) => match comparison_op(toks, q) {
            Some(op) => match parse_sum(toks, q + 1) {
                Ok((right, r)) => Ok((Ast::Op(Box::new(left), op, Box::new(right)), r)),
                Err(e) => Err(e),
            },
            None => Ok((left, q)),
        },
        Err(e) => Err(e),
    }
}

/// The rest of a conjunction whose left side is `left`: `&&` comparison ...
pub open spec fn and_tail(toks: Seq<Tok>, p: int, left: Ast) -> Result<(Ast, int), ParseError>
    decreases toks.len() - p, 0nat,
{
    if sym_at(toks, p, Symbol::AndAnd) {
        match advance(parse_comparison(toks, p + 1), p, toks.len()) {
            Ok((right, q)) => and_tail(
                toks,
                q,
                Ast::Op(Box::new(left), Opcode::And, Box::new(right)),
            ),
            Err(e) => Err(e),
        }
    } else {
        Ok((left, p))
    }
}

/// conjunction := comparison (`&&` comparison)*, grouped from the left
pub open spec fn parse_and(toks: Seq<Tok>, p: int) -> Result<(Ast, int), ParseError>
    decreases toks.len() - p, 7nat,
{
    match advance(parse_comparison(toks, p), p, toks.len()) {
        Ok((left, q)) => and_tail(toks, q, left),
        Err(e) => Err(e),
    }
}

/// The rest of a disjunction whose left side is `left`: `||` conjunction ...
pub open spec fn or_tail(toks: Seq<Tok>, p: int, left: Ast) -> Result<(Ast, int), ParseError>
    decreases toks.len() - p, 0nat,
{
    if sym_at(toks, p, Symbol::OrOr) {
        match advance(parse_and(toks, p + 1), p, toks.len()) {
            Ok((right, q)) => or_tail(toks, q, Ast::Op(Box::new(left), Opcode::Or, Box::new(right))),
            Err(e) => Err(e),
        }
    } else {
        Ok((left, p))
    }
}

/// expr := conjunction (`||` conjunction)*, grouped from the left
pub open spec fn parse_expr(toks: Seq<Tok>, p: int) -> Result<(Ast, int), ParseError>
    decreases toks.len() - p, 8nat,
{
    match advance(parse_and(toks, p), p, toks.len()) {
        Ok((left, q)) => or_tail(toks, q, left),
        Err(e) => Err(e),
    }
}

/// if := `if` expr block (`else` block)?
pub open spec fn parse_if(toks: Seq<Tok>, p: int) -> Result<(Ast, int), ParseError>
    decreases toks.len() - p, 1nat,
{
    if !word_at(toks, p, "if"@) {
        Err(unexpected(p))
    } else {
        match advance(parse_expr(toks, p + 1), p, toks.len()) {
            Ok((c, q)) => match advance(parse_block(toks, q), p, toks.len()) {
                Ok((first, r)) => if word_at(toks, r, "else"@) {
                    match parse_block(toks, r + 1) {
                        Ok((second, s)) => Ok((Ast::IfElse(Box::new(c), first, second), s)),
                        Err(e) => Err(e),
                    }
                } else {
                    Ok((Ast::IfStmt(Box::new(c), first), r))
                },
                Err(e) => Err(e),
            },
            Err(e) => Err(e),
        }
    }
}

/// while := `while` expr block
pub open spec fn parse_while(toks: Seq<Tok>, p: int) -> Result<(Ast, int), ParseError>
    decreases toks.len() - p, 1nat,
{
    if !word_at(toks, p, "while"@) {
        Err(unexpected(p))
    } else {
        match advance(parse_expr(toks, p + 1), p, toks.len()) {
            Ok((c, q)) => match parse_block(toks, q) {
                Ok((body, r)) => Ok((Ast::While(Box::new(c), body), r)),
                Err(e) => Err(e),
            },
            Err(e) => Err(e),
        }
    }
}

/// The end of a declaration: (`=` expr)? at `q`.
pub open spec fn let_init(
    toks: Seq<Tok>,
    p: int,
    q: int,
    name: Seq<char>,
    mutable: bool,
    text: Option<Seq<char>>,
) -> Result<(Ast, int), ParseError>
    decreases toks.len() - p, 0nat,
{
    if sym_at(toks, q, Symbol::Assign) && q > p {
        match parse_expr(toks, q + 1) {
            Ok((e, r)) => Ok((Ast::Declaration(name, mutable, text, Some(Box::new(e))), r)),
            Err(e) => Err(e),
        }
    } else {
        Ok((Ast::Declaration(name, mutable, text, None), q))
    }
}

/// The rest of a declaration behind the name at `n`: (`:` type)? (`=` expr)?
pub open spec fn let_rest(toks: Seq<Tok>, p: int, n: int, mutable: bool) -> Result<
    (Ast, int),
    ParseError,
>
    decreases toks.len() - p, 1nat,
{
    let name = toks[n]->Word_0;
    if sym_at(toks, n + 1, Symbol::Colon) {
        match annotation_at(toks, n + 1) {
            Ok((text, q)) => let_init(toks, p, q, name, mutable, Some(text)),
            Err(e) => Err(e),
        }
    } else {
        let_init(toks, p, n + 1, name, mutable, None)
    }
}

/// declaration := `let` `mut`? name (`:` type)? (`=` expr)?
pub open spec fn parse_let(toks: Seq<Tok>, p: int) -> Result<(Ast, int), ParseError>
    decreases toks.len() - p, 2nat,
{
    if !word_at(toks, p, "let"@) {
        Err(unexpected(p))
    } else {
        let mutable = word_at(toks, p + 1, "mut"@);
        let n = if mutable {
            p + 2
        } else {
            p + 1
        };
        if !any_word_at(toks, n) || reserved(toks[n]->Word_0) {
            Err(unexpected(n))
        } else {
            let_rest(toks, p, n, mutable)
        }
    }
}

/// statement := declaration | `return` expr? | if | while
///     | `*` name `=` expr | name `=` expr | expr
pub open spec fn parse_stmt(toks: Seq<Tok>, p: int) -> Result<(Ast, int), ParseError>
    decreases toks.len() - p, 10nat,
{
    if p < 0 {
        Err(unexpected(p))
    } else if word_at(toks, p, "let"@) {
        parse_let(toks, p)
    } else if word_at(toks, p, "return"@) {
        if p + 1 >= toks.len() || sym_at(toks, p + 1, Symbol::Semi) || sym_at(
            toks,
            p + 1,
            Symbol::RBrace,
        ) {
            Ok((Ast::Return(None), p + 1))
        } else {
            match parse_expr(toks, p + 1) {
                Ok((e, q)) => Ok((Ast::Return(Some(Box::new(e))), q)),
                Err(e) => Err(e),
            }
        }
    } else if word_at(toks, p, "if"@) {
        parse_if(toks, p)
    } else if word_at(toks, p, "while"@) {
        parse_while(toks, p)
    } else if write_form(toks, p) {
        if reserved(toks[p + 1]->Word_0) {
            Err(unexpected(p + 1))
        } else {
            match parse_expr(toks, p + 3) {
                Ok((e, q)) => Ok(
                    (Ast::WriteByRef(Opcode::DeRef, toks[p + 1]->Word_0, Box::new(e)), q),
                ),
                Err(e) => Err(e),
            }
        }
    } else if assign_form(toks, p) {
        if reserved(toks[p]->Word_0) {
            Err(unexpected(p))
        } else {
            match parse_expr(toks, p + 2) {
                Ok((e, q)) => Ok((Ast::Assign(toks[p]->Word_0, Box::new(e)), q)),
                Err(e) => Err(e),
            }
        }
    } else {
        parse_expr(toks, p)
    }
}

/// statements := `}` | statement `}` | statement `;` statements
///
/// A bare expression that ends the block without `;` is the block's value.
pub open spec fn parse_stmts(toks: Seq<Tok>, p: int, acc: Seq<Ast>) -> Result<
    (Seq<Ast>, int),
    ParseError,
>
    decreases toks.len() - p, 11nat,
{
    if p < 0 {
        Err(unexpected(p))
    } else if sym_at(toks, p, Symbol::RBrace) {
        Ok((acc, p + 1))
    } else {
        match advance(parse_stmt(toks, p), p, toks.len()) {
            Ok((node, q)) => if sym_at(toks, q, Symbol::Semi) {
                parse_stmts(toks, q + 1, acc.push(node))
            } else if sym_at(toks, q, Symbol::RBrace) {
                Ok(
                    (
                        acc.push(
                            if bare_at(toks, p) {
                                Ast::BlockValue(Box::new(node))
                            } else {
                                node
                            },
                        ),
                        q + 1,
                    ),
                )
            } else {
                Err(unexpected(q))
            },
            Err(e) => Err(e),
        }
    }
}

/// block := `{` statements
pub open spec fn parse_block(toks: Seq<Tok>, p: int) -> Result<(Seq<Ast>, int), ParseError>
    decreases toks.len() - p, 12nat,
{
    if sym_at(toks, p, Symbol::LBrace) {
        parse_stmts(toks, p + 1, Seq::empty())
    } else {
        Err(unexpected(p))
    }
}

/// params := `)` | name `:` type `)` | name `:` type `,` params
pub open spec fn parse_params(toks: Seq<Tok>, p: int, acc: Seq<Ast>) -> Result<
    (Seq<Ast>, int),
    ParseError,
>
    decreases toks.len() - p,
{
    if p < 0 {
        Err(unexpected(p))
    } else if sym_at(toks, p, Symbol::RParen) {
        Ok((acc, p + 1))
    } else if !any_word_at(toks, p) || reserved(toks[p]->Word_0) {
        Err(unexpected(p))
    } else {
        match advance(annotation_at(toks, p + 1), p, toks.len()) {
            Ok((text, q)) => {
                let param = Ast::ParamDef(toks[p]->Word_0, text);
                if sym_at(toks, q, Symbol::Comma) {
                    parse_params(toks, q + 1, acc.push(param))
                } else if sym_at(toks, q, Symbol::RParen) {
                    Ok((acc.push(param), q + 1))
                } else {
                    Err(unexpected(q))
                }
            },
            Err(e) => Err(e),
        }
    }
}

/// function := name `(` params (`->` type)? block
pub open spec fn parse_function(toks: Seq<Tok>, p: int) -> Result<(Ast, int), ParseError> {
    if !any_word_at(toks, p) || reserved(toks[p]->Word_0) {
        Err(unexpected(p))
    } else if !sym_at(toks, p + 1, Symbol::LParen) {
        Err(unexpected(p + 1))
    } else {
        match parse_params(toks, p + 2, Seq::empty()) {
            Err(e) => Err(e),
            Ok((params, q)) => {
                let ret = if sym_at(toks, q, Symbol::Arrow) {
                    match return_at(toks, q + 1) {
                        Ok((text, r)) => Ok((Some(text), r)),
                        Err(e) => Err(e),
                    }
                } else {
                    Ok((None, q))
                };
                match ret {
                    Err(e) => Err(e),
                    Ok((text, r)) => match parse_block(toks, r) {
                        Ok((body, s)) => Ok((Ast::FnDef(toks[p]->Word_0, params, text, body), s)),
                        Err(e) => Err(e),
                    },
                }
            },
        }
    }
}

/// program := (`fn` function)*
pub open spec fn parse_functions(toks: Seq<Tok>, p: int, acc: Seq<Ast>) -> Result<
    Seq<Ast>,
    ParseError,
>
    decreases toks.len() - p,
{
    if p < 0 || p >= toks.len() {
        Ok(acc)
    } else if !word_at(toks, p, "fn"@) {
        Err(unexpected(p))
    } else {
        match advance(parse_function(toks, p + 1), p, toks.len()) {
            Ok((f, q)) => parse_functions(toks, q, acc.push(f)),
            Err(e) => Err(e),
        }
    }
}

} // verus!
