//! Every rule of the grammar ends behind its start and within the tokens, so
//! the check that `advance` makes never rejects an outcome.

use vstd::prelude::*;
use crate::ast::Ast;
use crate::grammar::{
    advance, and_tail, annotation_at, comparison_op, let_init, let_rest, or_tail, parse_and,
    parse_args, parse_atom, parse_block, parse_comparison, parse_expr, parse_factor,
    parse_function, parse_if, parse_let, parse_params, parse_product, parse_stmt, parse_stmts,
    parse_sum, parse_while, product_op, product_tail, return_at, sum_op, sum_tail, sym_at,
    type_at,
};
use crate::lexer::{ParseError, Tok};

verus! {

/// Whether the outcome `r` of a rule that started at `p` of `n` tokens, if
/// it is a success, ends behind `p` and within the tokens.
pub open spec fn moves<T>(r: Result<(T, int), ParseError>, p: int, n: nat) -> bool {
    r matches Ok((_, q)) ==> p < q <= n
}

/// Whether the outcome `r` of the rest of a chain that started at `p` of `n`
/// tokens, if it is a success, ends at or behind `p` and within the tokens.
pub open spec fn stays<T>(r: Result<(T, int), ParseError>, p: int, n: nat) -> bool {
    r matches Ok((_, q)) ==> p <= q <= n
}

/// An outcome that moves is what `advance` lets through.
pub proof fn law_advance_accepts<T>(r: Result<(T, int), ParseError>, p: int, n: nat)
    requires
        moves(r, p, n),
    ensures
        advance(r, p, n) == r,
{
}

/// A type ends behind its start.
pub proof fn lemma_type_moves(toks: Seq<Tok>, p: int)
    ensures
        type_at(toks, p) matches Some((_, q)) ==> p < q <= toks.len(),
        moves(annotation_at(toks, p), p, toks.len()),
        moves(return_at(toks, p), p, toks.len()),
{
    reveal(type_at);
    reveal(annotation_at);
    reveal(return_at);
}

/// An expression ends behind its start.
pub proof fn law_expression_moves(toks: Seq<Tok>, p: int)
    ensures
        moves(parse_expr(toks, p), p, toks.len()),
    decreases toks.len() - p, 8nat,
{
    lemma_and_moves(toks, p);
    match parse_and(toks, p) {
        Ok((left, q)) => {
            lemma_or_tail_stays(toks, q, left);
        },
        Err(_) => {},
    }
}

/// A statement ends behind its start.
pub proof fn law_statement_moves(toks: Seq<Tok>, p: int)
    ensures
        moves(parse_stmt(toks, p), p, toks.len()),
    decreases toks.len() - p, 10nat,
{
    if 0 <= p {
        lemma_let_moves(toks, p);
        lemma_if_moves(toks, p);
        lemma_while_moves(toks, p);
        if 0 <= p < toks.len() {
            law_expression_moves(toks, p + 1);
            law_expression_moves(toks, p);
        }
        if p + 2 < toks.len() {
            law_expression_moves(toks, p + 2);
            law_expression_moves(toks, p + 3);
        } else if p + 1 < toks.len() {
            law_expression_moves(toks, p + 2);
        }
    }
}

/// A block ends behind its start.
pub proof fn law_block_moves(toks: Seq<Tok>, p: int)
    ensures
        moves(parse_block(toks, p), p, toks.len()),
    decreases toks.len() - p, 12nat,
{
    if sym_at(toks, p, crate::lexer::Symbol::LBrace) {
        lemma_stmts_move(toks, p + 1, Seq::empty());
    }
}

/// A function definition ends behind its start.
pub proof fn law_function_moves(toks: Seq<Tok>, p: int)
    ensures
        moves(parse_function(toks, p), p, toks.len()),
{
    if 0 <= p && p + 1 < toks.len() {
        lemma_params_move(toks, p + 2, Seq::empty());
        match parse_params(toks, p + 2, Seq::empty()) {
            Ok((_, q)) => {
                lemma_type_moves(toks, q + 1);
                law_block_moves(toks, q);
                match return_at(toks, q + 1) {
                    Ok((_, r)) => {
                        law_block_moves(toks, r);
                    },
                    Err(_) => {},
                }
            },
            Err(_) => {},
        }
    }
}

proof fn lemma_params_move(toks: Seq<Tok>, p: int, acc: Seq<Ast>)
    ensures
        moves(parse_params(toks, p, acc), p, toks.len()),
    decreases toks.len() - p,
{
    if 0 <= p < toks.len() {
        lemma_type_moves(toks, p + 1);
        match advance(annotation_at(toks, p + 1), p, toks.len()) {
            Ok((text, q)) => {
                if sym_at(toks, q, crate::lexer::Symbol::Comma) {
                    lemma_params_move(
                        toks,
                        q + 1,
                        acc.push(Ast::ParamDef(toks[p]->Word_0, text)),
                    );
                }
            },
            Err(_) => {},
        }
    }
}

proof fn lemma_stmts_move(toks: Seq<Tok>, p: int, acc: Seq<Ast>)
    ensures
        moves(parse_stmts(toks, p, acc), p, toks.len()),
    decreases toks.len() - p, 11nat,
{
    if 0 <= p {
        law_statement_moves(toks, p);
        match advance(parse_stmt(toks, p), p, toks.len()) {
            Ok((node, q)) => {
                if sym_at(toks, q, crate::lexer::Symbol::Semi) {
                    lemma_stmts_move(toks, q + 1, acc.push(node));
                }
            },
            Err(_) => {},
        }
    }
}

proof fn lemma_let_moves(toks: Seq<Tok>, p: int)
    ensures
        moves(parse_let(toks, p), p, toks.len()),
    decreases toks.len() - p, 2nat,
{
    if 0 <= p < toks.len() {
        let n = if crate::grammar::word_at(toks, p + 1, "mut"@) {
            p + 2
        } else {
            p + 1
        };
        if 0 <= n < toks.len() {
            lemma_let_rest_moves(toks, p, n, crate::grammar::word_at(toks, p + 1, "mut"@));
        }
    }
}

proof fn lemma_let_rest_moves(toks: Seq<Tok>, p: int, n: int, mutable: bool)
    requires
        0 <= p < n < toks.len(),
    ensures
        moves(let_rest(toks, p, n, mutable), p, toks.len()),
    decreases toks.len() - p, 1nat,
{
    let name = toks[n]->Word_0;
    lemma_type_moves(toks, n + 1);
    match annotation_at(toks, n + 1) {
        Ok((text, q)) => {
            lemma_let_init_moves(toks, p, q, name, mutable, Some(text));
        },
        Err(_) => {},
    }
    lemma_let_init_moves(toks, p, n + 1, name, mutable, None);
}

proof fn lemma_let_init_moves(
    toks: Seq<Tok>,
    p: int,
    q: int,
    name: Seq<char>,
    mutable: bool,
    text: Option<Seq<char>>,
)
    requires
        0 <= p < q <= toks.len(),
    ensures
        moves(let_init(toks, p, q, name, mutable, text), p, toks.len()),
    decreases toks.len() - p, 0nat,
{
    if q < toks.len() {
        law_expression_moves(toks, q + 1);
    }
}

proof fn lemma_if_moves(toks: Seq<Tok>, p: int)
    ensures
        moves(parse_if(toks, p), p, toks.len()),
    decreases toks.len() - p, 1nat,
{
    if 0 <= p < toks.len() {
        law_expression_moves(toks, p + 1);
        match advance(parse_expr(toks, p + 1), p, toks.len()) {
            Ok((_, q)) => {
                law_block_moves(toks, q);
                match advance(parse_block(toks, q), p, toks.len()) {
                    Ok((_, r)) => {
                        if r < toks.len() {
                            law_block_moves(toks, r + 1);
                        }
                    },
                    Err(_) => {},
                }
            },
            Err(_) => {},
        }
    }
}

proof fn lemma_while_moves(toks: Seq<Tok>, p: int)
    ensures
        moves(parse_while(toks, p), p, toks.len()),
    decreases toks.len() - p, 1nat,
{
    if 0 <= p < toks.len() {
        law_expression_moves(toks, p + 1);
        match advance(parse_expr(toks, p + 1), p, toks.len()) {
            Ok((_, q)) => {
                law_block_moves(toks, q);
            },
            Err(_) => {},
        }
    }
}

proof fn lemma_atom_moves(toks: Seq<Tok>, p: int)
    ensures
        moves(parse_atom(toks, p), p, toks.len()),
    decreases toks.len() - p, 2nat,
{
    if 0 <= p < toks.len() {
        lemma_if_moves(toks, p);
        if p + 1 < toks.len() {
            lemma_args_move(toks, p + 2, Seq::empty());
        }
        law_expression_moves(toks, p + 1);
    }
}

proof fn lemma_args_move(toks: Seq<Tok>, p: int, acc: Seq<Ast>)
    ensures
        moves(parse_args(toks, p, acc), p, toks.len()),
    decreases toks.len() - p, 9nat,
{
    if 0 <= p {
        law_expression_moves(toks, p);
        match advance(parse_expr(toks, p), p, toks.len()) {
            Ok((e, q)) => {
                if sym_at(toks, q, crate::lexer::Symbol::Comma) {
                    lemma_args_move(toks, q + 1, acc.push(e));
                }
            },
            Err(_) => {},
        }
    }
}

proof fn lemma_factor_moves(toks: Seq<Tok>, p: int)
    ensures
        moves(parse_factor(toks, p), p, toks.len()),
    decreases toks.len() - p, 3nat,
{
    if 0 <= p {
        if p < toks.len() {
            lemma_factor_moves(toks, p + 1);
            if p + 1 < toks.len() {
                lemma_factor_moves(toks, p + 2);
            }
        }
        lemma_atom_moves(toks, p);
    }
}

proof fn lemma_product_tail_stays(toks: Seq<Tok>, p: int, left: Ast)
    requires
        p <= toks.len(),
    ensures
        stays(product_tail(toks, p, left), p, toks.len()),
    decreases toks.len() - p, 0nat,
{
    match product_op(toks, p) {
        Some(op) => {
            lemma_factor_moves(toks, p + 1);
            match advance(parse_factor(toks, p + 1), p, toks.len()) {
                Ok((right, q)) => {
                    lemma_product_tail_stays(toks, q, Ast::Op(Box::new(left), op, Box::new(right)));
                },
                Err(_) => {},
            }
        },
        None => {},
    }
}

proof fn lemma_product_moves(toks: Seq<Tok>, p: int)
    ensures
        moves(parse_product(toks, p), p, toks.len()),
    decreases toks.len() - p, 4nat,
{
    lemma_factor_moves(toks, p);
    match advance(parse_factor(toks, p), p, toks.len()) {
        Ok((left, q)) => {
            lemma_product_tail_stays(toks, q, left);
        },
        Err(_) => {},
    }
}

proof fn lemma_sum_tail_stays(toks: Seq<Tok>, p: int, left: Ast)
    requires
        p <= toks.len(),
    ensures
        stays(sum_tail(toks, p, left), p, toks.len()),
    decreases toks.len() - p, 0nat,
{
    match sum_op(toks, p) {
        Some(op) => {
            lemma_product_moves(toks, p + 1);
            match advance(parse_product(toks, p + 1), p, toks.len()) {
                Ok((right, q)) => {
                    lemma_sum_tail_stays(toks, q, Ast::Op(Box::new(left), op, Box::new(right)));
                },
                Err(_) => {},
            }
        },
        None => {},
    }
}

proof fn lemma_sum_moves(toks: Seq<Tok>, p: int)
    ensures
        moves(parse_sum(toks, p), p, toks.len()),
    decreases toks.len() - p, 5nat,
{
    lemma_product_moves(toks, p);
    match advance(parse_product(toks, p), p, toks.len()) {
        Ok((left, q)) => {
            lemma_sum_tail_stays(toks, q, left);
        },
        Err(_) => {},
    }
}

proof fn lemma_comparison_moves(toks: Seq<Tok>, p: int)
    ensures
        moves(parse_comparison(toks, p), p, toks.len()),
    decreases toks.len() - p, 6nat,
{
    lemma_sum_moves(toks, p);
    match advance(parse_sum(toks, p), p, toks.len()) {
        Ok((_, q)) => {
            if comparison_op(toks, q) is Some {
                lemma_sum_moves(toks, q + 1);
            }
        },
        Err(_) => {},
    }
}

proof fn lemma_and_tail_stays(toks: Seq<Tok>, p: int, left: Ast)
    requires
        p <= toks.len(),
    ensures
        stays(and_tail(toks, p, left), p, toks.len()),
    decreases toks.len() - p, 0nat,
{
    if sym_at(toks, p, crate::lexer::Symbol::AndAnd) {
        lemma_comparison_moves(toks, p + 1);
        match advance(parse_comparison(toks, p + 1), p, toks.len()) {
            Ok((right, q)) => {
                lemma_and_tail_stays(
                    toks,
                    q,
                    Ast::Op(Box::new(left), crate::ast::Opcode::And, Box::new(right)),
                );
            },
            Err(_) => {},
        }
    }
}

proof fn lemma_and_moves(toks: Seq<Tok>, p: int)
    ensures
        moves(parse_and(toks, p), p, toks.len()),
    decreases toks.len() - p, 7nat,
{
    lemma_comparison_moves(toks, p);
    match advance(parse_comparison(toks, p), p, toks.len()) {
        Ok((left, q)) => {
            lemma_and_tail_stays(toks, q, left);
        },
        Err(_) => {},
    }
}

proof fn lemma_or_tail_stays(toks: Seq<Tok>, p: int, left: Ast)
    requires
        p <= toks.len(),
    ensures
        stays(or_tail(toks, p, left), p, toks.len()),
    decreases toks.len() - p, 0nat,
{
    if sym_at(toks, p, crate::lexer::Symbol::OrOr) {
        lemma_and_moves(toks, p + 1);
        match advance(parse_and(toks, p + 1), p, toks.len()) {
            Ok((right, q)) => {
                lemma_or_tail_stays(
                    toks,
                    q,
                    Ast::Op(Box::new(left), crate::ast::Opcode::Or, Box::new(right)),
                );
            },
            Err(_) => {},
        }
    }
}

} // verus!
