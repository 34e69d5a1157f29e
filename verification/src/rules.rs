//! The rules of the grammar by name, and what a text spells.
//!
//! Each `rule_...` is what the function of the grammar that it is named
//! after gives. It is opaque, and comes with a lemma that writes the rule out
//! over the other rules: a proof that calls the lemma sees that one rule and
//! nothing of the recursion behind it. The parser is proved against the
//! rules through these lemmas alone.

use vstd::prelude::*;
use crate::ast::{Ast, Opcode};
use crate::grammar::{
    advance, and_tail, annotation_at, any_word_at, assign_form, bare_at, comparison_op, let_init,
    let_rest, or_tail, parse_and, parse_args, parse_atom, parse_block, parse_comparison,
    parse_expr, parse_factor, parse_function, parse_functions, parse_if, parse_let, parse_params,
    parse_product, parse_stmt, parse_stmts, parse_sum, parse_while, product_op, product_tail,
    reserved, return_at, sum_op, sum_tail, sym_at, unexpected, word_at, write_form,
};
use crate::lexer::{tokens_of, ParseError, Symbol, Tok};

verus! {

/// atom := number | `true` | `false` | if | name `(` args | name | `(` expr `)`
#[verifier::opaque]
pub open spec fn rule_atom(toks: Seq<Tok>, p: int) -> Result<(Ast, int), ParseError> {
    parse_atom(toks, p)
}

/// What `rule_atom` says, written out.
pub proof fn unfold_atom(toks: Seq<Tok>, p: int)
    ensures
        rule_atom(toks, p) == ({
            if p < 0 || p >= toks.len() {
                Err(unexpected(p))
            } else {
                match toks[p] {
                    Tok::Number(n) => Ok((Ast::Number(n), p + 1)),
                    Tok::Word(w) => if w == "true"@ {
                        Ok((Ast::Boolean(true), p + 1))
                    } else if w == "false"@ {
                        Ok((Ast::Boolean(false), p + 1))
                    } else if w == "if"@ {
                        rule_if(toks, p)
                    } else if reserved(w) {
                        Err(unexpected(p))
                    } else if sym_at(toks, p + 1, Symbol::LParen) {
                        match rule_args(toks, p + 2, Seq::empty()) {
                            Ok((args, q)) => Ok((Ast::Call(w, args), q)),
                            Err(e) => Err(e),
                        }
                    } else {
                        Ok((Ast::ID(w), p + 1))
                    },
                    Tok::Sym(s) => if s == Symbol::LParen {
                        match advance(rule_expr(toks, p + 1), p, toks.len()) {
                            Ok((e, q)) => if sym_at(toks, q, Symbol::RParen) {
                                Ok((e, q + 1))
                            } else {
                                Err(unexpected(q))
                            },
                            Err(e) => Err(e),
                        }
                    } else {
                        Err(unexpected(p))
                    },
                }
            }
        }),
{
    reveal(rule_args);
    reveal(rule_atom);
    reveal(rule_expr);
    reveal(rule_if);
}

/// args := `)` | expr `)` | expr `,` args
#[verifier::opaque]
pub open spec fn rule_args(toks: Seq<Tok>, p: int, acc: Seq<Ast>) -> Result<
    (Seq<Ast>, int),
    ParseError,
> {
    parse_args(toks, p, acc)
}

/// What `rule_args` says, written out.
pub proof fn unfold_args(toks: Seq<Tok>, p: int, acc: Seq<Ast>)
    ensures
        rule_args(toks, p, acc) == ({
            if p < 0 {
                Err(unexpected(p))
            } else if sym_at(toks, p, Symbol::RParen) {
                Ok((acc, p + 1))
            } else {
                match advance(rule_expr(toks, p), p, toks.len()) {
                    Ok((e, q)) => if sym_at(toks, q, Symbol::Comma) {
                        rule_args(toks, q + 1, acc.push(e))
                    } else if sym_at(toks, q, Symbol::RParen) {
                        Ok((acc.push(e), q + 1))
                    } else {
                        Err(unexpected(q))
                    },
                    Err(e) => Err(e),
                }
            }
        }),
{
    reveal(rule_args);
    reveal(rule_expr);
}

/// factor := `-` factor | `!` factor | `*` factor | `&` `mut` factor | `&` factor | atom
#[verifier::opaque]
pub open spec fn rule_factor(toks: Seq<Tok>, p: int) -> Result<(Ast, int), ParseError> {
    parse_factor(toks, p)
}

/// What `rule_factor` says, written out.
pub proof fn unfold_factor(toks: Seq<Tok>, p: int)
    ensures
        rule_factor(toks, p) == ({
            if p < 0 {
                Err(unexpected(p))
            } else if sym_at(toks, p, Symbol::Minus) {
                match rule_factor(toks, p + 1) {
                    Ok((e, q)) => Ok((Ast::UnaryOp(Opcode::UnarySub, Box::new(e)), q)),
                    Err(e) => Err(e),
                }
            } else if sym_at(toks, p, Symbol::Bang) {
                match rule_factor(toks, p + 1) {
                    Ok((e, q)) => Ok((Ast::UnaryOp(Opcode::Not, Box::new(e)), q)),
                    Err(e) => Err(e),
                }
            } else if sym_at(toks, p, Symbol::Star) {
                match rule_factor(toks, p + 1) {
                    Ok((e, q)) => Ok((Ast::UnaryOp(Opcode::DeRef, Box::new(e)), q)),
                    Err(e) => Err(e),
                }
            } else if sym_at(toks, p, Symbol::Amp) {
                if word_at(toks, p + 1, "mut"@) {
                    match rule_factor(toks, p + 2) {
                        Ok((e, q)) => Ok((Ast::UnaryOp(Opcode::MutRef, Box::new(e)), q)),
                        Err(e) => Err(e),
                    }
                } else {
                    match rule_factor(toks, p + 1) {
                        Ok((e, q)) => Ok((Ast::UnaryOp(Opcode::Ref, Box::new(e)), q)),
                        Err(e) => Err(e),
                    }
                }
            } else {
                rule_atom(toks, p)
            }
        }),
{
    reveal(rule_atom);
    reveal(rule_factor);
}

/// The rest of a product whose left side is `left`: (`*` | `/` | `%`) factor ...
#[verifier::opaque]
pub open spec fn rule_product_tail(toks: Seq<Tok>, p: int, left: Ast) -> Result<(Ast, int), ParseError> {
    product_tail(toks, p, left)
}

/// What `rule_product_tail` says, written out.
pub proof fn unfold_product_tail(toks: Seq<Tok>, p: int, left: Ast)
    ensures
        rule_product_tail(toks, p, left) == ({
            match product_op(toks, p) {
                Some(op) => match advance(rule_factor(toks, p + 1), p, toks.len()) {
                    Ok((right, q)) => rule_product_tail(toks, q, Ast::Op(Box::new(left), op, Box::new(right))),
                    Err(e) => Err(e),
                },
                None => Ok((left, p)),
            }
        }),
{
    reveal(rule_factor);
    reveal(rule_product_tail);
}

/// product := factor ((`*` | `/` | `%`) factor)*, grouped from the left
#[verifier::opaque]
pub open spec fn rule_product(toks: Seq<Tok>, p: int) -> Result<(Ast, int), ParseError> {
    parse_product(toks, p)
}

/// What `rule_product` says, written out.
pub proof fn unfold_product(toks: Seq<Tok>, p: int)
    ensures
        rule_product(toks, p) == ({
            match advance(rule_factor(toks, p), p, toks.len()) {
                Ok((left, q)) => rule_product_tail(toks, q, left),
                Err(e) => Err(e),
            }
        }),
{
    reveal(rule_factor);
    reveal(rule_product);
    reveal(rule_product_tail);
}

/// The rest of a sum whose left side is `left`: (`+` | `-`) product ...
#[verifier::opaque]
pub open spec fn rule_sum_tail(toks: Seq<Tok>, p: int, left: Ast) -> Result<(Ast, int), ParseError> {
    sum_tail(toks, p, left)
}

/// What `rule_sum_tail` says, written out.
pub proof fn unfold_sum_tail(toks: Seq<Tok>, p: int, left: Ast)
    ensures
        rule_sum_tail(toks, p, left) == ({
            match sum_op(toks, p) {
                Some(op) => match advance(rule_product(toks, p + 1), p, toks.len()) {
                    Ok((right, q)) => rule_sum_tail(toks, q, Ast::Op(Box::new(left), op, Box::new(right))),
                    Err(e) => Err(e),
                },
                None => Ok((left, p)),
            }
        }),
{
    reveal(rule_product);
    reveal(rule_sum_tail);
}

/// sum := product ((`+` | `-`) product)*, grouped from the left
#[verifier::opaque]
pub open spec fn rule_sum(toks: Seq<Tok>, p: int) -> Result<(Ast, int), ParseError> {
    parse_sum(toks, p)
}

/// What `rule_sum` says, written out.
pub proof fn unfold_sum(toks: Seq<Tok>, p: int)
    ensures
        rule_sum(toks, p) == ({
            match advance(rule_product(toks, p), p, toks.len()) {
                Ok((left, q)) => rule_sum_tail(toks, q, left),
                Err(e) => Err(e),
            }
        }),
{
    reveal(rule_product);
    reveal(rule_sum);
    reveal(rule_sum_tail);
}

/// comparison := sum ((`==` | `!=` | `<` | `<=` | `>` | `>=`) sum)?
#[verifier::opaque]
pub open spec fn rule_comparison(toks: Seq<Tok>, p: int) -> Result<(Ast, int), ParseError> {
    parse_comparison(toks, p)
}

/// What `rule_comparison` says, written out.
pub proof fn unfold_comparison(toks: Seq<Tok>, p: int)
    ensures
        rule_comparison(toks, p) == ({
            match advance(rule_sum(toks, p), p, toks.len()) {
                Ok((left, q)) => match comparison_op(toks, q) {
                    Some(op) => match rule_sum(toks, q + 1) {
                        Ok((right, r)) => Ok((Ast::Op(Box::new(left), op, Box::new(right)), r)),
                        Err(e) => Err(e),
                    },
                    None => Ok((left, q)),
                },
                Err(e) => Err(e),
            }
        }),
{
    reveal(rule_comparison);
    reveal(rule_sum);
}

/// The rest of a conjunction whose left side is `left`: `&&` comparison ...
#[verifier::opaque]
pub open spec fn rule_and_tail(toks: Seq<Tok>, p: int, left: Ast) -> Result<(Ast, int), ParseError> {
    and_tail(toks, p, left)
}

/// What `rule_and_tail` says, written out.
pub proof fn unfold_and_tail(toks: Seq<Tok>, p: int, left: Ast)
    ensures
        rule_and_tail(toks, p, left) == ({
            if sym_at(toks, p, Symbol::AndAnd) {
                match advance(rule_comparison(toks, p + 1), p, toks.len()) {
                    Ok((right, q)) => rule_and_tail(
                        toks,
                        q,
                        Ast::Op(Box::new(left), Opcode::And, Box::new(right)),
                    ),
                    Err(e) => Err(e),
                }
            } else {
                Ok((left, p))
            }
        }),
{
    reveal(rule_and_tail);
    reveal(rule_comparison);
}

/// conjunction := comparison (`&&` comparison)*, grouped from the left
#[verifier::opaque]
pub open spec fn rule_and(toks: Seq<Tok>, p: int) -> Result<(Ast, int), ParseError> {
    parse_and(toks, p)
}

/// What `rule_and` says, written out.
pub proof fn unfold_and(toks: Seq<Tok>, p: int)
    ensures
        rule_and(toks, p) == ({
            match advance(rule_comparison(toks, p), p, toks.len()) {
                Ok((left, q)) => rule_and_tail(toks, q, left),
                Err(e) => Err(e),
            }
        }),
{
    reveal(rule_and_tail);
    reveal(rule_and);
    reveal(rule_comparison);
}

/// The rest of a disjunction whose left side is `left`: `||` conjunction ...
#[verifier::opaque]
pub open spec fn rule_or_tail(toks: Seq<Tok>, p: int, left: Ast) -> Result<(Ast, int), ParseError> {
    or_tail(toks, p, left)
}

/// What `rule_or_tail` says, written out.
pub proof fn unfold_or_tail(toks: Seq<Tok>, p: int, left: Ast)
    ensures
        rule_or_tail(toks, p, left) == ({
            if sym_at(toks, p, Symbol::OrOr) {
                match advance(rule_and(toks, p + 1), p, toks.len()) {
                    Ok((right, q)) => rule_or_tail(toks, q, Ast::Op(Box::new(left), Opcode::Or, Box::new(right))),
                    Err(e) => Err(e),
                }
            } else {
                Ok((left, p))
            }
        }),
{
    reveal(rule_or_tail);
    reveal(rule_and);
}

/// expr := conjunction (`||` conjunction)*, grouped from the left
#[verifier::opaque]
pub open spec fn rule_expr(toks: Seq<Tok>, p: int) -> Result<(Ast, int), ParseError> {
    parse_expr(toks, p)
}

/// What `rule_expr` says, written out.
pub proof fn unfold_expr(toks: Seq<Tok>, p: int)
    ensures
        rule_expr(toks, p) == ({
            match advance(rule_and(toks, p), p, toks.len()) {
                Ok((left, q)) => rule_or_tail(toks, q, left),
                Err(e) => Err(e),
            }
        }),
{
    reveal(rule_or_tail);
    reveal(rule_and);
    reveal(rule_expr);
}

/// if := `if` expr block (`else` block)?
#[verifier::opaque]
pub open spec fn rule_if(toks: Seq<Tok>, p: int) -> Result<(Ast, int), ParseError> {
    parse_if(toks, p)
}

/// What `rule_if` says, written out.
pub proof fn unfold_if(toks: Seq<Tok>, p: int)
    ensures
        rule_if(toks, p) == ({
            if !word_at(toks, p, "if"@) {
                Err(unexpected(p))
            } else {
                match advance(rule_expr(toks, p + 1), p, toks.len()) {
                    Ok((c, q)) => match advance(rule_block(toks, q), p, toks.len()) {
                        Ok((first, r)) => if word_at(toks, r, "else"@) {
                            match rule_block(toks, r + 1) {
                                Ok((second, s)) => Ok((Ast::IfElse(Box::new(c), first, second), s)),
                                Err(e) => Err(e),
                            }
                        } else {
                            Ok((Ast::IfStmt(Box::new(c), first), r))
                        },
                        Err(e) => Err(e),
                    },
                    Err(e) => Err(e),
                }
            }
        }),
{
    reveal(rule_block);
    reveal(rule_expr);
    reveal(rule_if);
}

/// while := `while` expr block
#[verifier::opaque]
pub open spec fn rule_while(toks: Seq<Tok>, p: int) -> Result<(Ast, int), ParseError> {
    parse_while(toks, p)
}

/// What `rule_while` says, written out.
pub proof fn unfold_while(toks: Seq<Tok>, p: int)
    ensures
        rule_while(toks, p) == ({
            if !word_at(toks, p, "while"@) {
                Err(unexpected(p))
            } else {
                match advance(rule_expr(toks, p + 1), p, toks.len()) {
                    Ok((c, q)) => match rule_block(toks, q) {
                        Ok((body, r)) => Ok((Ast::While(Box::new(c), body), r)),
                        Err(e) => Err(e),
                    },
                    Err(e) => Err(e),
                }
            }
        }),
{
    reveal(rule_block);
    reveal(rule_expr);
    reveal(rule_while);
}

/// The end of a declaration: (`=` expr)? at `q`.
#[verifier::opaque]
pub open spec fn rule_let_init(toks: Seq<Tok>, p: int, q: int, name: Seq<char>, mutable: bool, text: Option<Seq<char>>) -> Result<(Ast, int), ParseError> {
    let_init(toks, p, q, name, mutable, text)
}

/// What `rule_let_init` says, written out.
pub proof fn unfold_let_init(toks: Seq<Tok>, p: int, q: int, name: Seq<char>, mutable: bool, text: Option<Seq<char>>)
    ensures
        rule_let_init(toks, p, q, name, mutable, text) == ({
            if sym_at(toks, q, Symbol::Assign) && q > p {
                match rule_expr(toks, q + 1) {
                    Ok((e, r)) => Ok((Ast::Declaration(name, mutable, text, Some(Box::new(e))), r)),
                    Err(e) => Err(e),
                }
            } else {
                Ok((Ast::Declaration(name, mutable, text, None), q))
            }
        }),
{
    reveal(rule_let_init);
    reveal(rule_expr);
}

/// The rest of a declaration behind the name at `n`: (`:` type)? (`=` expr)?
#[verifier::opaque]
pub open spec fn rule_let_rest(toks: Seq<Tok>, p: int, n: int, mutable: bool) -> Result<
    (Ast, int),
    ParseError,
> {
    let_rest(toks, p, n, mutable)
}

/// What `rule_let_rest` says, written out.
pub proof fn unfold_let_rest(toks: Seq<Tok>, p: int, n: int, mutable: bool)
    ensures
        rule_let_rest(toks, p, n, mutable) == ({
            let name = toks[n]->Word_0;
            if sym_at(toks, n + 1, Symbol::Colon) {
                match annotation_at(toks, n + 1) {
                    Ok((text, q)) => rule_let_init(toks, p, q, name, mutable, Some(text)),
                    Err(e) => Err(e),
                }
            } else {
                rule_let_init(toks, p, n + 1, name, mutable, None)
            }
        }),
{
    reveal(rule_let_init);
    reveal(rule_let_rest);
}

/// declaration := `let` `mut`? name (`:` type)? (`=` expr)?
#[verifier::opaque]
pub open spec fn rule_let(toks: Seq<Tok>, p: int) -> Result<(Ast, int), ParseError> {
    parse_let(toks, p)
}

/// What `rule_let` says, written out.
pub proof fn unfold_let(toks: Seq<Tok>, p: int)
    ensures
        rule_let(toks, p) == ({
            if !word_at(toks, p, "let"@) {
                Err(unexpected(p))
            } else {
                let mutable = word_at(toks, p + 1, "mut"@);
                let n = if mutable {
                    p + 2
                } else {
                    p + 1
                };
                if !any_word_at(toks, n) || reserved(toks[n]->Word_0) {
                    Err(unexpected(n))
                } else {
                    rule_let_rest(toks, p, n, mutable)
                }
            }
        }),
{
    reveal(rule_let_rest);
    reveal(rule_let);
}

/// statement := declaration | `return` expr? | if | while
///     | `*` name `=` expr | name `=` expr | expr
#[verifier::opaque]
pub open spec fn rule_stmt(toks: Seq<Tok>, p: int) -> Result<(Ast, int), ParseError> {
    parse_stmt(toks, p)
}

/// What `rule_stmt` says, written out.
pub proof fn unfold_stmt(toks: Seq<Tok>, p: int)
    ensures
        rule_stmt(toks, p) == ({
            if p < 0 {
                Err(unexpected(p))
            } else if word_at(toks, p, "let"@) {
                rule_let(toks, p)
            } else if word_at(toks, p, "return"@) {
                if p + 1 >= toks.len() || sym_at(toks, p + 1, Symbol::Semi) || sym_at(
                    toks,
                    p + 1,
                    Symbol::RBrace,
                ) {
                    Ok((Ast::Return(None), p + 1))
                } else {
                    match rule_expr(toks, p + 1) {
                        Ok((e, q)) => Ok((Ast::Return(Some(Box::new(e))), q)),
                        Err(e) => Err(e),
                    }
                }
            } else if word_at(toks, p, "if"@) {
                rule_if(toks, p)
            } else if word_at(toks, p, "while"@) {
                rule_while(toks, p)
            } else if write_form(toks, p) {
                if reserved(toks[p + 1]->Word_0) {
                    Err(unexpected(p + 1))
                } else {
                    match rule_expr(toks, p + 3) {
                        Ok((e, q)) => Ok(
                            (Ast::WriteByRef(Opcode::DeRef, toks[p + 1]->Word_0, Box::new(e)), q),
                        ),
                        Err(e) => Err(e),
                    }
                }
            } else if assign_form(toks, p) {
                if reserved(toks[p]->Word_0) {
                    Err(unexpected(p))
                } else {
                    match rule_expr(toks, p + 2) {
                        Ok((e, q)) => Ok((Ast::Assign(toks[p]->Word_0, Box::new(e)), q)),
                        Err(e) => Err(e),
                    }
                }
            } else {
                rule_expr(toks, p)
            }
        }),
{
    reveal(rule_expr);
    reveal(rule_if);
    reveal(rule_let);
    reveal(rule_stmt);
    reveal(rule_while);
}

/// statements := `}` | statement `}` | statement `;` statements
///
/// A bare expression that ends the block without `;` is the block's value.
#[verifier::opaque]
pub open spec fn rule_stmts(toks: Seq<Tok>, p: int, acc: Seq<Ast>) -> Result<
    (Seq<Ast>, int),
    ParseError,
> {
    parse_stmts(toks, p, acc)
}

/// What `rule_stmts` says, written out.
pub proof fn unfold_stmts(toks: Seq<Tok>, p: int, acc: Seq<Ast>)
    ensures
        rule_stmts(toks, p, acc) == ({
            if p < 0 {
                Err(unexpected(p))
            } else if sym_at(toks, p, Symbol::RBrace) {
                Ok((acc, p + 1))
            } else {
                match advance(rule_stmt(toks, p), p, toks.len()) {
                    Ok((node, q)) => if sym_at(toks, q, Symbol::Semi) {
                        rule_stmts(toks, q + 1, acc.push(node))
                    } else if sym_at(toks, q, Symbol::RBrace) {
                        Ok(
                            (
                                acc.push(
                                    if bare_at(toks, p) {
                                        Ast::BlockValue(Box::new(node))
                                    } else {
                                        node
                                    },
                                ),
                                q + 1,
                            ),
                        )
                    } else {
                        Err(unexpected(q))
                    },
                    Err(e) => Err(e),
                }
            }
        }),
{
    reveal(rule_stmt);
    reveal(rule_stmts);
}

/// block := `{` statements
#[verifier::opaque]
pub open spec fn rule_block(toks: Seq<Tok>, p: int) -> Result<(Seq<Ast>, int), ParseError> {
    parse_block(toks, p)
}

/// What `rule_block` says, written out.
pub proof fn unfold_block(toks: Seq<Tok>, p: int)
    ensures
        rule_block(toks, p) == ({
            if sym_at(toks, p, Symbol::LBrace) {
                rule_stmts(toks, p + 1, Seq::empty())
            } else {
                Err(unexpected(p))
            }
        }),
{
    reveal(rule_block);
    reveal(rule_stmts);
}

/// params := `)` | name `:` type `)` | name `:` type `,` params
#[verifier::opaque]
pub open spec fn rule_params(toks: Seq<Tok>, p: int, acc: Seq<Ast>) -> Result<
    (Seq<Ast>, int),
    ParseError,
> {
    parse_params(toks, p, acc)
}

/// What `rule_params` says, written out.
pub proof fn unfold_params(toks: Seq<Tok>, p: int, acc: Seq<Ast>)
    ensures
        rule_params(toks, p, acc) == ({
            if p < 0 {
                Err(unexpected(p))
            } else if sym_at(toks, p, Symbol::RParen) {
                Ok((acc, p + 1))
            } else if !any_word_at(toks, p) || reserved(toks[p]->Word_0) {
                Err(unexpected(p))
            } else {
                match advance(annotation_at(toks, p + 1), p, toks.len()) {
                    Ok((text, q)) => {
                        let param = Ast::ParamDef(toks[p]->Word_0, text);
                        if sym_at(toks, q, Symbol::Comma) {
                            rule_params(toks, q + 1, acc.push(param))
                        } else if sym_at(toks, q, Symbol::RParen) {
                            Ok((acc.push(param), q + 1))
                        } else {
                            Err(unexpected(q))
                        }
                    },
                    Err(e) => Err(e),
                }
            }
        }),
{
    reveal(rule_params);
}

/// function := name `(` params (`->` type)? block
#[verifier::opaque]
pub open spec fn rule_function(toks: Seq<Tok>, p: int) -> Result<(Ast, int), ParseError> {
    parse_function(toks, p)
}

/// What `rule_function` says, written out.
pub proof fn unfold_function(toks: Seq<Tok>, p: int)
    ensures
        rule_function(toks, p) == ({
            if !any_word_at(toks, p) || reserved(toks[p]->Word_0) {
                Err(unexpected(p))
            } else if !sym_at(toks, p + 1, Symbol::LParen) {
                Err(unexpected(p + 1))
            } else {
                match rule_params(toks, p + 2, Seq::empty()) {
                    Err(e) => Err(e),
                    Ok((params, q)) => {
                        let ret = if sym_at(toks, q, Symbol::Arrow) {
                            match return_at(toks, q + 1) {
                                Ok((text, r)) => Ok((Some(text), r)),
                                Err(e) => Err(e),
                            }
                        } else {
                            Ok((None, q))
                        };
                        match ret {
                            Err(e) => Err(e),
                            Ok((text, r)) => match rule_block(toks, r) {
                                Ok((body, s)) => Ok((Ast::FnDef(toks[p]->Word_0, params, text, body), s)),
                                Err(e) => Err(e),
                            },
                        }
                    },
                }
            }
        }),
{
    reveal(rule_block);
    reveal(rule_function);
    reveal(rule_params);
}

/// program := (`fn` function)*
#[verifier::opaque]
pub open spec fn rule_functions(toks: Seq<Tok>, p: int, acc: Seq<Ast>) -> Result<
    Seq<Ast>,
    ParseError,
> {
    parse_functions(toks, p, acc)
}

/// What `rule_functions` says, written out.
pub proof fn unfold_functions(toks: Seq<Tok>, p: int, acc: Seq<Ast>)
    ensures
        rule_functions(toks, p, acc) == ({
            if p < 0 || p >= toks.len() {
                Ok(acc)
            } else if !word_at(toks, p, "fn"@) {
                Err(unexpected(p))
            } else {
                match advance(rule_function(toks, p + 1), p, toks.len()) {
                    Ok((f, q)) => rule_functions(toks, q, acc.push(f)),
                    Err(e) => Err(e),
                }
            }
        }),
{
    reveal(rule_function);
    reveal(rule_functions);
}

/// The outcome of a rule that must cover the whole token sequence.
pub open spec fn whole(toks: Seq<Tok>, r: Result<(Ast, int), ParseError>) -> Result<Ast, ParseError> {
    match r {
        Ok((node, q)) => if q == toks.len() {
            Ok(node)
        } else {
            Err(unexpected(q))
        },
        Err(e) => Err(e),
    }
}

/// The program that a text spells.
pub open spec fn program_of(text: Seq<char>) -> Result<Ast, ParseError> {
    match tokens_of(text) {
        Err(e) => Err(e),
        Ok(toks) => match rule_functions(toks, 0, Seq::empty()) {
            Ok(fns) => Ok(Ast::Program(fns)),
            Err(e) => Err(e),
        },
    }
}

/// The function definition that a text spells, without the keyword `fn`.
pub open spec fn function_of(text: Seq<char>) -> Result<Ast, ParseError> {
    match tokens_of(text) {
        Err(e) => Err(e),
        Ok(toks) => whole(toks, rule_function(toks, 0)),
    }
}

/// The statement that a text spells.
pub open spec fn statement_of(text: Seq<char>) -> Result<Ast, ParseError> {
    match tokens_of(text) {
        Err(e) => Err(e),
        Ok(toks) => whole(toks, rule_stmt(toks, 0)),
    }
}

/// The expression that a text spells.
pub open spec fn expression_of(text: Seq<char>) -> Result<Ast, ParseError> {
    match tokens_of(text) {
        Err(e) => Err(e),
        Ok(toks) => whole(toks, rule_expr(toks, 0)),
    }
}

} // verus!
