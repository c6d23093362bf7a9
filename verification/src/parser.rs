//! The parser: tokens to the syntax tree, by recursive descent. Binary
//! operators bind, from loosest to tightest: `or`, `and`, `|`, `^`, `&`, a
//! range `..`, comparisons (with a prefix `not`), `+ -`, `<< >>`, `* /`,
//! then indexing, members and method calls after a primary expression.
//!
//! In the specification every position that comes back from a nested parse
//! is checked to lie past where that parse started; parses always move
//! forward, so the check never fails, and only shows that parsing ends.

use vstd::prelude::*;
use std::ops::Range;
use crate::lexer::{Token, TokenView, token_debug, token_debug_text, lex, lex_from, spans_match, lex_error_message};
use crate::ff::{SyntaxProfile, preprocess_source, preprocess_spec};
use crate::ast::{
    Expr, Stmt, FnDef, FnType, StructDef, TraitDef, ImplBlock, TopLevel, Program, BinOp, UnOp,
    ExprView, StmtView, FnDefView, StructDefView, TraitDefView, ImplView, TopView, expr_view,
    exprs_view, entries_view, stmt_view, stmts_view, names_of, struct_view, fn_view, fns_view,
    top_view, program_view,
};
use crate::text::{decimal, u64_to_text, concat};

verus! {

broadcast use crate::lexer::lemma_token_view;

/// The token at position `p`.
pub open spec fn tok(v: Seq<(Token, Range<usize>)>, p: int) -> TokenView {
    v[p].0@
}

/// Whether position `p` holds the token `k`.
pub open spec fn is_at(v: Seq<(Token, Range<usize>)>, p: int, k: TokenView) -> bool {
    0 <= p < v.len() && tok(v, p) == k
}

/// Whether position `p` holds an identifier.
pub open spec fn ident_at(v: Seq<(Token, Range<usize>)>, p: int) -> bool {
    0 <= p < v.len() && tok(v, p) is Identifier
}

/// Where an error happened: the byte at which the token at `p` starts, or
/// the end of input.
pub open spec fn position_note(v: Seq<(Token, Range<usize>)>, p: int) -> Seq<char> {
    if 0 <= p < v.len() {
        " at byte "@ + decimal(v[p].1.start as nat)
    } else {
        " at EOF"@
    }
}

/// The message `msg` with the place of position `p`.
pub open spec fn error_at(v: Seq<(Token, Range<usize>)>, p: int, msg: Seq<char>) -> Seq<char> {
    msg + position_note(v, p)
}

/// Consumes the token `k` at `p`, or says what was found instead.
pub open spec fn expect_tok(v: Seq<(Token, Range<usize>)>, p: int, k: TokenView) -> Result<int, Seq<char>> {
    if 0 <= p < v.len() {
        if tok(v, p) == k {
            Ok(p + 1)
        } else {
            Err(error_at(v, p, "Expected "@ + token_debug(k) + ", found "@ + token_debug(tok(v, p))))
        }
    } else {
        Err("Expected "@ + token_debug(k) + ", found EOF"@)
    }
}

/// The operator that continues a chain of operands at binary level `lvl`
/// (9 for `or` down to 0 for `* /`; 4, the range, has none).
pub open spec fn level_op(lvl: nat, t: TokenView) -> Option<BinOp> {
    if lvl == 9 && t == TokenView::Or {
        Some(BinOp::Or)
    } else if lvl == 8 && t == TokenView::And {
        Some(BinOp::And)
    } else if lvl == 7 && t == TokenView::BitOr {
        Some(BinOp::BitOr)
    } else if lvl == 6 && t == TokenView::BitXor {
        Some(BinOp::BitXor)
    } else if lvl == 5 && t == TokenView::BitAnd {
        Some(BinOp::BitAnd)
    } else if lvl == 3 && t == TokenView::EqEq {
        Some(BinOp::Eq)
    } else if lvl == 3 && t == TokenView::Ne {
        Some(BinOp::Ne)
    } else if lvl == 3 && t == TokenView::Lt {
        Some(BinOp::Lt)
    } else if lvl == 3 && t == TokenView::Gt {
        Some(BinOp::Gt)
    } else if lvl == 3 && t == TokenView::Le {
        Some(BinOp::Le)
    } else if lvl == 3 && t == TokenView::Ge {
        Some(BinOp::Ge)
    } else if lvl == 2 && t == TokenView::Plus {
        Some(BinOp::Add)
    } else if lvl == 2 && t == TokenView::Minus {
        Some(BinOp::Sub)
    } else if lvl == 1 && t == TokenView::Shl {
        Some(BinOp::Shl)
    } else if lvl == 1 && t == TokenView::Shr {
        Some(BinOp::Shr)
    } else if lvl == 0 && t == TokenView::Star {
        Some(BinOp::Mul)
    } else if lvl == 0 && t == TokenView::Slash {
        Some(BinOp::Div)
    } else {
        None
    }
}

/// The tokens at which a list of call arguments stops before it starts an
/// argument.
pub open spec fn ends_arguments(t: TokenView) -> bool {
    t == TokenView::RBrace || t == TokenView::Var || t == TokenView::Say || t == TokenView::Return
        || t == TokenView::Fn
}

/// An expression at `p`.
pub open spec fn expr_at(v: Seq<(Token, Range<usize>)>, p: int) -> Result<(ExprView, int), Seq<char>>
    decreases v.len() - p, 13nat,
{
    level_at(v, p, 9)
}

/// An expression of binary level `lvl` at `p`: its first operand, then the
/// chain of operators of that level with their operands, grouped to the
/// left. A range takes one `..` and a right operand; a comparison may start
/// with `not`, which then applies to a whole comparison.
pub open spec fn level_at(v: Seq<(Token, Range<usize>)>, p: int, lvl: nat) -> Result<(ExprView, int), Seq<char>>
    decreases v.len() - p, 3 + lvl,
{
    if lvl == 4 {
        match level_at(v, p, 3) {
            Err(e) => Err(e),
            Ok((left, p1)) => if p1 < p {
                Err(seq![])
            } else if is_at(v, p1, TokenView::DotDot) {
                match level_at(v, p1 + 1, 3) {
                    Err(e) => Err(e),
                    Ok((right, p2)) => Ok((ExprView::Bin(BinOp::Range, Box::new(left), Box::new(right)), p2)),
                }
            } else {
                Ok((left, p1))
            },
        }
    } else if lvl == 3 && is_at(v, p, TokenView::Not) {
        match level_at(v, p + 1, 3) {
            Err(e) => Err(e),
            Ok((e, p2)) => Ok((ExprView::Un(UnOp::Not, Box::new(e)), p2)),
        }
    } else {
        let first = if lvl == 0 {
            postfix_at(v, p)
        } else {
            level_at(v, p, (lvl - 1) as nat)
        };
        match first {
            Err(e) => Err(e),
            Ok((left, p1)) => if p1 <= p || p1 > v.len() {
                Err(seq![])
            } else {
                level_rest(v, p1, lvl, left)
            },
        }
    }
}

/// The rest of a chain at binary level `lvl` after the operand `left`.
pub open spec fn level_rest(v: Seq<(Token, Range<usize>)>, p: int, lvl: nat, left: ExprView) -> Result<(ExprView, int), Seq<char>>
    decreases v.len() - p, 0nat,
{
    if 0 <= p < v.len() && level_op(lvl, tok(v, p)) is Some {
        let op = level_op(lvl, tok(v, p))->0;
        let next = if lvl == 0 {
            postfix_at(v, p + 1)
        } else {
            level_at(v, p + 1, (lvl - 1) as nat)
        };
        match next {
            Err(e) => Err(e),
            Ok((right, p2)) => if p2 <= p || p2 > v.len() {
                Err(seq![])
            } else {
                level_rest(v, p2, lvl, ExprView::Bin(op, Box::new(left), Box::new(right)))
            },
        }
    } else {
        Ok((left, p))
    }
}

/// A primary expression at `p` with its indexings, member accesses and
/// method calls.
pub open spec fn postfix_at(v: Seq<(Token, Range<usize>)>, p: int) -> Result<(ExprView, int), Seq<char>>
    decreases v.len() - p, 2nat,
{
    match primary_at(v, p) {
        Err(e) => Err(e),
        Ok((e, p1)) => if p1 <= p || p1 > v.len() {
            Err(seq![])
        } else {
            postfix_rest(v, p1, e)
        },
    }
}

/// The indexings, member accesses and method calls after `e`. A member
/// followed by `:` is a method call with arguments.
pub open spec fn postfix_rest(v: Seq<(Token, Range<usize>)>, p: int, e: ExprView) -> Result<(ExprView, int), Seq<char>>
    decreases v.len() - p, 0nat,
{
    if is_at(v, p, TokenView::LBracket) {
        match expr_at(v, p + 1) {
            Err(x) => Err(x),
            Ok((idx, p2)) => match expect_tok(v, p2, TokenView::RBracket) {
                Err(x) => Err(x),
                Ok(p3) => if p3 <= p {
                    Err(seq![])
                } else {
                    postfix_rest(v, p3, ExprView::Bin(BinOp::Index, Box::new(e), Box::new(idx)))
                },
            },
        }
    } else if is_at(v, p, TokenView::Dot) {
        if ident_at(v, p + 1) {
            let m = tok(v, p + 1)->Identifier_0;
            if is_at(v, p + 2, TokenView::Colon) {
                match call_args(v, p + 3, seq![]) {
                    Err(x) => Err(x),
                    Ok((args, p3)) => if p3 < p + 3 || p3 > v.len() {
                        Err(seq![])
                    } else {
                        postfix_rest(v, p3, ExprView::MethodCall(Box::new(e), m, args))
                    },
                }
            } else {
                postfix_rest(v, p + 2, ExprView::Member(Box::new(e), m))
            }
        } else {
            Err(error_at(v, if p + 1 < v.len() { p + 2 } else { p + 1 }, "Expected member name after ."@))
        }
    } else {
        Ok((e, p))
    }
}

/// The arguments of a call from `p`, after those in `acc`: expressions
/// separated by commas, stopping at the end of input, before a `}`, `var`,
/// `say`, `return` or `fn`, or after an argument with no comma.
pub open spec fn call_args(v: Seq<(Token, Range<usize>)>, p: int, acc: Seq<ExprView>) -> Result<(Seq<ExprView>, int), Seq<char>>
    decreases v.len() - p, 14nat,
{
    if !(0 <= p < v.len()) || ends_arguments(tok(v, p)) {
        Ok((acc, p))
    } else {
        match expr_at(v, p) {
            Err(e) => Err(e),
            Ok((a, p2)) => if is_at(v, p2, TokenView::Comma) {
                if p2 < p {
                    Err(seq![])
                } else {
                    call_args(v, p2 + 1, acc.push(a))
                }
            } else {
                Ok((acc.push(a), p2))
            },
        }
    }
}

/// The items of a list literal from `p`, after those in `acc`, up to its `]`.
pub open spec fn list_items(v: Seq<(Token, Range<usize>)>, p: int, acc: Seq<ExprView>) -> Result<(Seq<ExprView>, int), Seq<char>>
    decreases v.len() - p, 14nat,
{
    if is_at(v, p, TokenView::RBracket) {
        Ok((acc, p))
    } else {
        match expr_at(v, p) {
            Err(e) => Err(e),
            Ok((a, p2)) => if is_at(v, p2, TokenView::Comma) {
                if p2 < p {
                    Err(seq![])
                } else {
                    list_items(v, p2 + 1, acc.push(a))
                }
            } else {
                Ok((acc.push(a), p2))
            },
        }
    }
}

/// The entries of a map literal from `p`, after those in `acc`, up to its
/// `}`: a key, a `:` and a value each.
pub open spec fn map_entries(v: Seq<(Token, Range<usize>)>, p: int, acc: Seq<(ExprView, ExprView)>) -> Result<(Seq<(ExprView, ExprView)>, int), Seq<char>>
    decreases v.len() - p, 14nat,
{
    if is_at(v, p, TokenView::RBrace) {
        Ok((acc, p))
    } else {
        match expr_at(v, p) {
            Err(e) => Err(e),
            Ok((k, p2)) => match expect_tok(v, p2, TokenView::Colon) {
                Err(e) => Err(e),
                Ok(p3) => if p3 <= p {
                    Err(seq![])
                } else {
                    match expr_at(v, p3) {
                        Err(e) => Err(e),
                        Ok((x, p4)) => if is_at(v, p4, TokenView::Comma) {
                            if p4 < p {
                                Err(seq![])
                            } else {
                                map_entries(v, p4 + 1, acc.push((k, x)))
                            }
                        } else {
                            Ok((acc.push((k, x)), p4))
                        },
                    }
                },
            },
        }
    }
}

/// A primary expression at `p`: a literal, a name or a call `name: args`,
/// a parenthesized expression, a list or map literal, or `await`, `~`,
/// `-` before a primary expression, or `ask:` before an expression.
pub open spec fn primary_at(v: Seq<(Token, Range<usize>)>, p: int) -> Result<(ExprView, int), Seq<char>>
    decreases v.len() - p, 1nat,
{
    if !(0 <= p < v.len()) {
        Err(error_at(v, p, "Unexpected token in expression: None"@))
    } else {
        match tok(v, p) {
            TokenView::Number(n) => Ok((ExprView::Number(n), p + 1)),
            TokenView::StringLit(s) => Ok((ExprView::Str(s), p + 1)),
            TokenView::True => Ok((ExprView::Bool(true), p + 1)),
            TokenView::False => Ok((ExprView::Bool(false), p + 1)),
            TokenView::Identifier(name) => if is_at(v, p + 1, TokenView::Colon) {
                match call_args(v, p + 2, seq![]) {
                    Err(e) => Err(e),
                    Ok((args, p2)) => Ok((ExprView::Call(name, args), p2)),
                }
            } else {
                Ok((ExprView::Ident(name), p + 1))
            },
            TokenView::LParen => match expr_at(v, p + 1) {
                Err(e) => Err(e),
                Ok((e, p2)) => match expect_tok(v, p2, TokenView::RParen) {
                    Err(x) => Err(x),
                    Ok(p3) => Ok((e, p3)),
                },
            },
            TokenView::LBracket => match list_items(v, p + 1, seq![]) {
                Err(e) => Err(e),
                Ok((items, p2)) => match expect_tok(v, p2, TokenView::RBracket) {
                    Err(x) => Err(x),
                    Ok(p3) => Ok((ExprView::List(items), p3)),
                },
            },
            TokenView::LBrace => match map_entries(v, p + 1, seq![]) {
                Err(e) => Err(e),
                Ok((es, p2)) => match expect_tok(v, p2, TokenView::RBrace) {
                    Err(x) => Err(x),
                    Ok(p3) => Ok((ExprView::Mapping(es), p3)),
                },
            },
            TokenView::Await => match primary_at(v, p + 1) {
                Err(e) => Err(e),
                Ok((e, p2)) => Ok((ExprView::Un(UnOp::Await, Box::new(e)), p2)),
            },
            TokenView::BitNot => match primary_at(v, p + 1) {
                Err(e) => Err(e),
                Ok((e, p2)) => Ok((ExprView::Un(UnOp::BitNot, Box::new(e)), p2)),
            },
            TokenView::Minus => match primary_at(v, p + 1) {
                Err(e) => Err(e),
                Ok((e, p2)) => Ok((ExprView::Un(UnOp::Neg, Box::new(e)), p2)),
            },
            TokenView::Ask => match expect_tok(v, p + 1, TokenView::Colon) {
                Err(x) => Err(x),
                Ok(p2) => match expr_at(v, p2) {
                    Err(e) => Err(e),
                    Ok((e, p3)) => Ok((ExprView::Un(UnOp::Ask, Box::new(e)), p3)),
                },
            },
            other => Err(error_at(v, p, "Unexpected token in expression: Some("@ + token_debug(other) + ")"@)),
        }
    }
}


/// Whether `t` starts a struct declaration.
pub open spec fn starts_struct(t: TokenView) -> bool {
    t == TokenView::Struct || t == TokenView::Class || t == TokenView::Cl || t == TokenView::Clg
        || t == TokenView::Clc
}

/// The parameter names from `p`, after those in `acc`: identifiers
/// separated by commas.
pub open spec fn param_list(v: Seq<(Token, Range<usize>)>, p: int, acc: Seq<Seq<char>>) -> (Seq<Seq<char>>, int)
    decreases v.len() - p,
{
    if ident_at(v, p) {
        let s = tok(v, p)->Identifier_0;
        if is_at(v, p + 1, TokenView::Comma) {
            param_list(v, p + 2, acc.push(s))
        } else {
            (acc.push(s), p + 1)
        }
    } else {
        (acc, p)
    }
}

/// The field names of a struct from `p`, after those in `acc`, up to its
/// `}`: a token other than a name ends them, and is passed over.
pub open spec fn field_list(v: Seq<(Token, Range<usize>)>, p: int, acc: Seq<Seq<char>>) -> (Seq<Seq<char>>, int)
    decreases v.len() - p,
{
    if !(0 <= p < v.len()) || tok(v, p) == TokenView::RBrace {
        (acc, p)
    } else if tok(v, p) is Identifier {
        let f = tok(v, p)->Identifier_0;
        if is_at(v, p + 1, TokenView::Comma) {
            field_list(v, p + 2, acc.push(f))
        } else {
            field_list(v, p + 1, acc.push(f))
        }
    } else {
        (acc, p + 1)
    }
}

/// A struct declaration at `p`: `struct`, `class`, `cl`, `clg` or `clc`, a
/// name and the fields in braces.
pub open spec fn struct_at(v: Seq<(Token, Range<usize>)>, p: int) -> Result<(StructDefView, int), Seq<char>> {
    let q0 = if 0 <= p < v.len() && starts_struct(tok(v, p)) && tok(v, p) != TokenView::Struct {
        Ok(p + 1)
    } else {
        expect_tok(v, p, TokenView::Struct)
    };
    match q0 {
        Err(e) => Err(e),
        Ok(q0) => if !ident_at(v, q0) {
            Err("Expected struct name"@)
        } else {
            match expect_tok(v, q0 + 1, TokenView::LBrace) {
                Err(e) => Err(e),
                Ok(q2) => {
                    let (fields, q3) = field_list(v, q2, seq![]);
                    match expect_tok(v, q3, TokenView::RBrace) {
                        Err(e) => Err(e),
                        Ok(q4) => Ok((StructDefView { name: tok(v, q0)->Identifier_0, fields: fields }, q4)),
                    }
                },
            }
        },
    }
}

/// A statement at `p`.
pub open spec fn stmt_at(v: Seq<(Token, Range<usize>)>, p: int) -> Result<(StmtView, int), Seq<char>>
    decreases v.len() - p, 6nat,
{
    if is_at(v, p, TokenView::Var) {
        if !ident_at(v, p + 1) {
            Err("Expected variable name"@)
        } else {
            let name = tok(v, p + 1)->Identifier_0;
            let start = if is_at(v, p + 2, TokenView::LBrace) {
                Ok(p + 2)
            } else {
                expect_tok(v, p + 2, TokenView::Colon)
            };
            match start {
                Err(e) => Err(e),
                Ok(q) => match expr_at(v, q) {
                    Err(e) => Err(e),
                    Ok((e, q2)) => Ok((StmtView::VarDecl(name, e), q2)),
                },
            }
        }
    } else if is_at(v, p, TokenView::Say) {
        match expect_tok(v, p + 1, TokenView::Colon) {
            Err(e) => Err(e),
            Ok(q) => match expr_at(v, q) {
                Err(e) => Err(e),
                Ok((e, q2)) => Ok((StmtView::Say(e), q2)),
            },
        }
    } else if is_at(v, p, TokenView::Return) {
        match expr_at(v, p + 1) {
            Err(e) => Err(e),
            Ok((e, q)) => Ok((StmtView::Return(e), q)),
        }
    } else if is_at(v, p, TokenView::LBrace) {
        match stmts_at(v, p + 1, seq![]) {
            Err(e) => Err(e),
            Ok((b, q)) => match expect_tok(v, q, TokenView::RBrace) {
                Err(e) => Err(e),
                Ok(q2) => Ok((StmtView::Block(b), q2)),
            },
        }
    } else if is_at(v, p, TokenView::If) {
        if_at(v, p)
    } else if is_at(v, p, TokenView::While) {
        while_at(v, p)
    } else if is_at(v, p, TokenView::For) {
        for_at(v, p)
    } else if 0 <= p < v.len() && starts_struct(tok(v, p)) {
        match struct_at(v, p) {
            Err(e) => Err(e),
            Ok((d, q)) => Ok((StmtView::Struct(d), q)),
        }
    } else if is_at(v, p, TokenView::Try) {
        try_at(v, p)
    } else if is_at(v, p, TokenView::Throw) {
        match expr_at(v, p + 1) {
            Err(e) => Err(e),
            Ok((e, q)) => Ok((StmtView::Throw(e), q)),
        }
    } else if is_at(v, p, TokenView::Import) {
        if p + 1 < v.len() && tok(v, p + 1) is StringLit {
            Ok((StmtView::Import(tok(v, p + 1)->StringLit_0), p + 2))
        } else {
            Err(error_at(v, if p + 1 < v.len() { p + 2 } else { p + 1 }, "Expected string literal after import"@))
        }
    } else if is_at(v, p, TokenView::Fn) || is_at(v, p, TokenView::Async) {
        match function_at(v, p, FnType::Normal) {
            Err(e) => Err(e),
            Ok((f, q)) => Ok((StmtView::Expr(ExprView::Ident(f.name)), q)),
        }
    } else {
        match expr_at(v, p) {
            Err(e) => Err(e),
            Ok((e, q)) => if is_at(v, q, TokenView::Eq) {
                match expr_at(v, q + 1) {
                    Err(x) => Err(x),
                    Ok((x, q2)) => Ok((StmtView::Assign(e, x), q2)),
                }
            } else {
                Ok((StmtView::Expr(e), q))
            },
        }
    }
}

/// The statements from `p`, after those in `acc`, up to a `}`.
pub open spec fn stmts_at(v: Seq<(Token, Range<usize>)>, p: int, acc: Seq<StmtView>) -> Result<(Seq<StmtView>, int), Seq<char>>
    decreases v.len() - p, 7nat,
{
    if is_at(v, p, TokenView::RBrace) {
        Ok((acc, p))
    } else {
        match stmt_at(v, p) {
            Err(e) => Err(e),
            Ok((s, q)) => if q <= p || q > v.len() {
                Err(seq![])
            } else {
                stmts_at(v, q, acc.push(s))
            },
        }
    }
}

/// The statements in braces from `p`: the `{`, the statements and the `}`.
pub open spec fn braced_at(v: Seq<(Token, Range<usize>)>, p: int) -> Result<(Seq<StmtView>, int), Seq<char>>
    decreases v.len() - p, 8nat,
{
    match expect_tok(v, p, TokenView::LBrace) {
        Err(e) => Err(e),
        Ok(q) => match stmts_at(v, q, seq![]) {
            Err(e) => Err(e),
            Ok((b, q2)) => match expect_tok(v, q2, TokenView::RBrace) {
                Err(e) => Err(e),
                Ok(q3) => Ok((b, q3)),
            },
        },
    }
}

/// An `if` statement at `p`: a condition, a braced body, and an optional
/// `else` with a braced body.
pub open spec fn if_at(v: Seq<(Token, Range<usize>)>, p: int) -> Result<(StmtView, int), Seq<char>>
    decreases v.len() - p, 5nat,
{
    match expr_at(v, p + 1) {
        Err(e) => Err(e),
        Ok((c, q)) => if q <= p || q > v.len() {
            Err(seq![])
        } else {
            match braced_at(v, q) {
                Err(e) => Err(e),
                Ok((then_b, q2)) => if is_at(v, q2, TokenView::Else) {
                    if q2 < p {
                        Err(seq![])
                    } else {
                        match braced_at(v, q2 + 1) {
                            Err(e) => Err(e),
                            Ok((else_b, q3)) => Ok((StmtView::If(c, then_b, Some(else_b)), q3)),
                        }
                    }
                } else {
                    Ok((StmtView::If(c, then_b, None), q2))
                },
            }
        },
    }
}

/// A `while` statement at `p`: a condition and a braced body.
pub open spec fn while_at(v: Seq<(Token, Range<usize>)>, p: int) -> Result<(StmtView, int), Seq<char>>
    decreases v.len() - p, 5nat,
{
    match expr_at(v, p + 1) {
        Err(e) => Err(e),
        Ok((c, q)) => if q <= p || q > v.len() {
            Err(seq![])
        } else {
            match braced_at(v, q) {
                Err(e) => Err(e),
                Ok((b, q2)) => Ok((StmtView::While(c, b), q2)),
            }
        },
    }
}

/// A `for` statement at `p`: a variable, `in`, what it walks over and a
/// braced body.
pub open spec fn for_at(v: Seq<(Token, Range<usize>)>, p: int) -> Result<(StmtView, int), Seq<char>>
    decreases v.len() - p, 5nat,
{
    if !ident_at(v, p + 1) {
        Err("Expected variable name after for"@)
    } else {
        match expect_tok(v, p + 2, TokenView::In) {
            Err(e) => Err(e),
            Ok(q) => match expr_at(v, q) {
                Err(e) => Err(e),
                Ok((it, q2)) => if q2 <= p || q2 > v.len() {
                    Err(seq![])
                } else {
                    match braced_at(v, q2) {
                        Err(e) => Err(e),
                        Ok((b, q3)) => Ok((StmtView::For(tok(v, p + 1)->Identifier_0, it, b), q3)),
                    }
                },
            },
        }
    }
}

/// A `try` statement at `p`: a braced body, `catch`, an optional name for
/// the error (`err` when there is none) and a braced handler.
pub open spec fn try_at(v: Seq<(Token, Range<usize>)>, p: int) -> Result<(StmtView, int), Seq<char>>
    decreases v.len() - p, 5nat,
{
    if !(0 <= p < v.len()) {
        Err(seq![])
    } else {
        match braced_at(v, p + 1) {
            Err(e) => Err(e),
            Ok((body, q)) => match expect_tok(v, q, TokenView::Catch) {
                Err(e) => Err(e),
                Ok(q2) => {
                    let name = if ident_at(v, q2) { tok(v, q2)->Identifier_0 } else { "err"@ };
                    let q3 = if ident_at(v, q2) { q2 + 1 } else { q2 };
                    if q3 <= p || q3 > v.len() {
                        Err(seq![])
                    } else {
                        match braced_at(v, q3) {
                            Err(e) => Err(e),
                            Ok((handler, q4)) => Ok((StmtView::TryCatch(body, name, handler), q4)),
                        }
                    }
                },
            },
        }
    }
}

/// The keyword that declares a function of type `ft`.
pub open spec fn fn_keyword(ft: FnType) -> TokenView {
    match ft {
        FnType::Global => TokenView::Fng,
        FnType::Precompiled => TokenView::Fnc,
        FnType::Normal => TokenView::Fn,
    }
}

/// A function definition at `p`: an optional `async`, the keyword of its
/// type, a name, `:` and parameters unless the body follows at once, and a
/// braced body.
pub open spec fn function_at(v: Seq<(Token, Range<usize>)>, p: int, ft: FnType) -> Result<(FnDefView, int), Seq<char>>
    decreases v.len() - p, 5nat,
{
    let is_async = is_at(v, p, TokenView::Async);
    let q0 = if is_async { p + 1 } else { p };
    match expect_tok(v, q0, fn_keyword(ft)) {
        Err(e) => Err(e),
        Ok(q1) => if !ident_at(v, q1) {
            Err("Expected function name"@)
        } else {
            let params = if is_at(v, q1 + 1, TokenView::LBrace) {
                Ok((Seq::<Seq<char>>::empty(), q1 + 1))
            } else {
                match expect_tok(v, q1 + 1, TokenView::Colon) {
                    Err(e) => Err(e),
                    Ok(q) => Ok(param_list(v, q, seq![])),
                }
            };
            match params {
                Err(e) => Err(e),
                Ok((ps, q2)) => if q2 <= p || q2 > v.len() {
                    Err(seq![])
                } else {
                    match braced_at(v, q2) {
                    Err(e) => Err(e),
                    Ok((body, q3)) => Ok((
                        FnDefView {
                            name: tok(v, q1)->Identifier_0,
                            params: ps,
                            body: body,
                            is_async: is_async,
                            is_unsafe: false,
                            fn_type: ft,
                        },
                        q3,
                    )),
                    }
                },
            }
        },
    }
}

/// The parameters after a `:` in a trait's method signature, which are
/// passed over.
pub open spec fn skip_params(v: Seq<(Token, Range<usize>)>, p: int) -> int
    decreases v.len() - p,
{
    if ident_at(v, p) {
        if is_at(v, p + 1, TokenView::Comma) {
            skip_params(v, p + 2)
        } else {
            p + 1
        }
    } else {
        p
    }
}

/// The method names of a trait from `p`, after those in `acc`, up to its
/// `}`: `fn`, a name, optional `:` and parameters, and `;` each.
pub open spec fn trait_methods(v: Seq<(Token, Range<usize>)>, p: int, acc: Seq<Seq<char>>) -> Result<(Seq<Seq<char>>, int), Seq<char>>
    decreases v.len() - p,
{
    if is_at(v, p, TokenView::RBrace) {
        Ok((acc, p))
    } else {
        match expect_tok(v, p, TokenView::Fn) {
            Err(e) => Err(e),
            Ok(q) => if !ident_at(v, q) {
                Err("Expected method name in trait"@)
            } else {
                let q2 = if is_at(v, q + 1, TokenView::Colon) { skip_params(v, q + 2) } else { q + 1 };
                match expect_tok(v, q2, TokenView::Semicolon) {
                    Err(e) => Err(e),
                    Ok(q3) => if q3 <= p || q3 > v.len() {
                        Err(seq![])
                    } else {
                        trait_methods(v, q3, acc.push(tok(v, q)->Identifier_0))
                    },
                }
            },
        }
    }
}

/// A trait declaration at `p`.
pub open spec fn trait_at(v: Seq<(Token, Range<usize>)>, p: int) -> Result<(TraitDefView, int), Seq<char>> {
    if !ident_at(v, p + 1) {
        Err("Expected trait name"@)
    } else {
        match expect_tok(v, p + 2, TokenView::LBrace) {
            Err(e) => Err(e),
            Ok(q) => match trait_methods(v, q, seq![]) {
                Err(e) => Err(e),
                Ok((ms, q2)) => match expect_tok(v, q2, TokenView::RBrace) {
                    Err(e) => Err(e),
                    Ok(q3) => Ok((TraitDefView { name: tok(v, p + 1)->Identifier_0, methods: ms }, q3)),
                },
            },
        }
    }
}

/// The methods of an impl block from `p`, after those in `acc`, up to its
/// `}`: function definitions only.
pub open spec fn impl_methods(v: Seq<(Token, Range<usize>)>, p: int, acc: Seq<FnDefView>) -> Result<(Seq<FnDefView>, int), Seq<char>>
    decreases v.len() - p,
{
    if is_at(v, p, TokenView::RBrace) {
        Ok((acc, p))
    } else if is_at(v, p, TokenView::Fn) || is_at(v, p, TokenView::Async) {
        match function_at(v, p, FnType::Normal) {
            Err(e) => Err(e),
            Ok((f, q)) => if q <= p || q > v.len() {
                Err(seq![])
            } else {
                impl_methods(v, q, acc.push(f))
            },
        }
    } else {
        Err("Only function definitions are allowed inside impl blocks"@)
    }
}

/// An impl block at `p`: `impl`, a trait name, `for`, a type name and the
/// methods in braces.
pub open spec fn impl_at(v: Seq<(Token, Range<usize>)>, p: int) -> Result<(ImplView, int), Seq<char>> {
    if !ident_at(v, p + 1) {
        Err("Expected trait name after impl"@)
    } else {
        match expect_tok(v, p + 2, TokenView::For) {
            Err(e) => Err(e),
            Ok(q) => if !ident_at(v, q) {
                Err("Expected type name after 'for'"@)
            } else {
                match expect_tok(v, q + 1, TokenView::LBrace) {
                    Err(e) => Err(e),
                    Ok(q2) => match impl_methods(v, q2, seq![]) {
                        Err(e) => Err(e),
                        Ok((ms, q3)) => match expect_tok(v, q3, TokenView::RBrace) {
                            Err(e) => Err(e),
                            Ok(q4) => Ok((
                                ImplView {
                                    trait_name: tok(v, p + 1)->Identifier_0,
                                    for_type: tok(v, q)->Identifier_0,
                                    methods: ms,
                                },
                                q4,
                            )),
                        },
                    },
                }
            },
        }
    }
}

/// A file name after `use` or `upd` at `p`, with `ext` appended; `msg`
/// when no name follows.
pub open spec fn file_after(v: Seq<(Token, Range<usize>)>, p: int, ext: Seq<char>, msg: Seq<char>) -> Result<(Seq<char>, int), Seq<char>> {
    if ident_at(v, p + 1) {
        Ok((tok(v, p + 1)->Identifier_0 + ext, p + 2))
    } else {
        Err(error_at(v, if p + 1 < v.len() { p + 2 } else { p + 1 }, msg))
    }
}

/// A top-level item at `p`.
pub open spec fn top_at(v: Seq<(Token, Range<usize>)>, p: int) -> Result<(TopView, int), Seq<char>> {
    if is_at(v, p, TokenView::Fn) || is_at(v, p, TokenView::Async) {
        match function_at(v, p, FnType::Normal) {
            Err(e) => Err(e),
            Ok((f, q)) => Ok((TopView::Function(f), q)),
        }
    } else if is_at(v, p, TokenView::Fng) {
        match function_at(v, p, FnType::Global) {
            Err(e) => Err(e),
            Ok((f, q)) => Ok((TopView::Function(f), q)),
        }
    } else if is_at(v, p, TokenView::Fnc) {
        match function_at(v, p, FnType::Precompiled) {
            Err(e) => Err(e),
            Ok((f, q)) => Ok((TopView::Function(f), q)),
        }
    } else if 0 <= p < v.len() && starts_struct(tok(v, p)) {
        match struct_at(v, p) {
            Err(e) => Err(e),
            Ok((d, q)) => Ok((TopView::Struct(d), q)),
        }
    } else if is_at(v, p, TokenView::Trait) {
        match trait_at(v, p) {
            Err(e) => Err(e),
            Ok((d, q)) => Ok((TopView::Trait(d), q)),
        }
    } else if is_at(v, p, TokenView::Impl) {
        match impl_at(v, p) {
            Err(e) => Err(e),
            Ok((d, q)) => Ok((TopView::Impl(d), q)),
        }
    } else if is_at(v, p, TokenView::Import) {
        if p + 1 < v.len() && tok(v, p + 1) is StringLit {
            Ok((TopView::Import(tok(v, p + 1)->StringLit_0), p + 2))
        } else {
            Err(error_at(v, if p + 1 < v.len() { p + 2 } else { p + 1 }, "Expected string literal after import"@))
        }
    } else if is_at(v, p, TokenView::Use) {
        match file_after(v, p, ".fr"@, "Expected filename after use"@) {
            Err(e) => Err(e),
            Ok((f, q)) => Ok((TopView::Use(f), q)),
        }
    } else if is_at(v, p, TokenView::Upd) {
        match file_after(v, p, ".frx"@, "Expected filename after upd"@) {
            Err(e) => Err(e),
            Ok((f, q)) => Ok((TopView::Hardwire(f), q)),
        }
    } else {
        match stmt_at(v, p) {
            Err(e) => Err(e),
            Ok((s, q)) => Ok((TopView::Statement(s), q)),
        }
    }
}

/// The items of a program from `p`, after those in `acc`, to the end of the
/// tokens.
pub open spec fn items_at(v: Seq<(Token, Range<usize>)>, p: int, acc: Seq<TopView>) -> Result<Seq<TopView>, Seq<char>>
    decreases v.len() - p,
{
    if !(0 <= p < v.len()) {
        Ok(acc)
    } else {
        match top_at(v, p) {
            Err(e) => Err(e),
            Ok((it, q)) => if q <= p || q > v.len() {
                Err(seq![])
            } else {
                items_at(v, q, acc.push(it))
            },
        }
    }
}


/// Whether `t` is a token without a payload.
pub open spec fn plain_token(t: TokenView) -> bool {
    !(t is StringLit || t is Float || t is Number || t is Identifier)
}

/// Whether `a` is the payload-free token `b`.
fn same_plain(a: &Token, b: &Token) -> (r: bool)
    requires
        plain_token(b@),
    ensures
        r == (a@ == b@),
{
    match b {
        Token::Fn => matches!(a, Token::Fn),
        Token::Var => matches!(a, Token::Var),
        Token::Return => matches!(a, Token::Return),
        Token::Async => matches!(a, Token::Async),
        Token::Mod => matches!(a, Token::Mod),
        Token::If => matches!(a, Token::If),
        Token::Else => matches!(a, Token::Else),
        Token::While => matches!(a, Token::While),
        Token::For => matches!(a, Token::For),
        Token::Trait => matches!(a, Token::Trait),
        Token::Impl => matches!(a, Token::Impl),
        Token::Class => matches!(a, Token::Class),
        Token::Cl => matches!(a, Token::Cl),
        Token::Clg => matches!(a, Token::Clg),
        Token::Clc => matches!(a, Token::Clc),
        Token::Struct => matches!(a, Token::Struct),
        Token::Try => matches!(a, Token::Try),
        Token::Catch => matches!(a, Token::Catch),
        Token::Throw => matches!(a, Token::Throw),
        Token::In => matches!(a, Token::In),
        Token::True => matches!(a, Token::True),
        Token::False => matches!(a, Token::False),
        Token::Await => matches!(a, Token::Await),
        Token::BitAnd => matches!(a, Token::BitAnd),
        Token::BitOr => matches!(a, Token::BitOr),
        Token::BitXor => matches!(a, Token::BitXor),
        Token::BitNot => matches!(a, Token::BitNot),
        Token::Shl => matches!(a, Token::Shl),
        Token::Shr => matches!(a, Token::Shr),
        Token::And => matches!(a, Token::And),
        Token::Or => matches!(a, Token::Or),
        Token::Not => matches!(a, Token::Not),
        Token::Import => matches!(a, Token::Import),
        Token::Say => matches!(a, Token::Say),
        Token::Ask => matches!(a, Token::Ask),
        Token::Fng => matches!(a, Token::Fng),
        Token::Fnc => matches!(a, Token::Fnc),
        Token::Use => matches!(a, Token::Use),
        Token::Upd => matches!(a, Token::Upd),
        Token::Init => matches!(a, Token::Init),
        Token::Plus => matches!(a, Token::Plus),
        Token::Minus => matches!(a, Token::Minus),
        Token::Star => matches!(a, Token::Star),
        Token::Slash => matches!(a, Token::Slash),
        Token::EqEq => matches!(a, Token::EqEq),
        Token::Ne => matches!(a, Token::Ne),
        Token::Le => matches!(a, Token::Le),
        Token::Ge => matches!(a, Token::Ge),
        Token::Lt => matches!(a, Token::Lt),
        Token::Gt => matches!(a, Token::Gt),
        Token::Eq => matches!(a, Token::Eq),
        Token::Colon => matches!(a, Token::Colon),
        Token::DotDot => matches!(a, Token::DotDot),
        Token::Dot => matches!(a, Token::Dot),
        Token::Semicolon => matches!(a, Token::Semicolon),
        Token::Comma => matches!(a, Token::Comma),
        Token::LBrace => matches!(a, Token::LBrace),
        Token::RBrace => matches!(a, Token::RBrace),
        Token::LParen => matches!(a, Token::LParen),
        Token::RParen => matches!(a, Token::RParen),
        Token::LBracket => matches!(a, Token::LBracket),
        Token::RBracket => matches!(a, Token::RBracket),
        _ => false,
    }
}

/// What a parse of an expression gives, against its specification.
pub open spec fn expr_ok(r: Result<(Expr, usize), String>, s: Result<(ExprView, int), Seq<char>>) -> bool {
    match s {
        Ok((e, q)) => r is Ok && expr_view(r->Ok_0.0) == e && r->Ok_0.1 == q,
        Err(m) => r is Err && r->Err_0@ == m,
    }
}

/// What a parse of a list of expressions gives, against its specification.
pub open spec fn exprs_ok(r: Result<(Vec<Expr>, usize), String>, s: Result<(Seq<ExprView>, int), Seq<char>>) -> bool {
    match s {
        Ok((e, q)) => r is Ok && exprs_view(r->Ok_0.0@) == e && r->Ok_0.1 == q,
        Err(m) => r is Err && r->Err_0@ == m,
    }
}

/// What a parse of map entries gives, against its specification.
pub open spec fn entries_ok(r: Result<(Vec<(Expr, Expr)>, usize), String>, s: Result<(Seq<(ExprView, ExprView)>, int), Seq<char>>) -> bool {
    match s {
        Ok((e, q)) => r is Ok && entries_view(r->Ok_0.0@) == e && r->Ok_0.1 == q,
        Err(m) => r is Err && r->Err_0@ == m,
    }
}

/// The message `msg` with the place of position `p`.
fn error_text(v: &Vec<(Token, Range<usize>)>, p: usize, msg: &str) -> (r: String)
    ensures
        r@ == error_at(v@, p as int, msg@),
{
    if p < v.len() {
        let a = concat(msg, " at byte ");
        concat(&a, &u64_to_text(v[p].1.start as u64))
    } else {
        concat(msg, " at EOF")
    }
}

/// Consumes the payload-free token `k` at `p`.
fn expect(v: &Vec<(Token, Range<usize>)>, p: usize, k: &Token) -> (r: Result<usize, String>)
    requires
        plain_token(k@),
    ensures
        match expect_tok(v@, p as int, k@) {
            Ok(q) => r is Ok && r->Ok_0 == q,
            Err(m) => r is Err && r->Err_0@ == m,
        },
{
    if p < v.len() {
        if same_plain(&v[p].0, k) {
            Ok(p + 1)
        } else {
            let a = concat("Expected ", &token_debug_text(k));
            let b = concat(&a, ", found ");
            let c = concat(&b, &token_debug_text(&v[p].0));
            Err(error_text(v, p, &c))
        }
    } else {
        let a = concat("Expected ", &token_debug_text(k));
        Err(concat(&a, ", found EOF"))
    }
}

fn level_op_of(lvl: u8, t: &Token) -> (r: Option<BinOp>)
    ensures
        r == level_op(lvl as nat, t@),
{
    match t {
        Token::Or => if lvl == 9 { Some(BinOp::Or) } else { None },
        Token::And => if lvl == 8 { Some(BinOp::And) } else { None },
        Token::BitOr => if lvl == 7 { Some(BinOp::BitOr) } else { None },
        Token::BitXor => if lvl == 6 { Some(BinOp::BitXor) } else { None },
        Token::BitAnd => if lvl == 5 { Some(BinOp::BitAnd) } else { None },
        Token::EqEq => if lvl == 3 { Some(BinOp::Eq) } else { None },
        Token::Ne => if lvl == 3 { Some(BinOp::Ne) } else { None },
        Token::Lt => if lvl == 3 { Some(BinOp::Lt) } else { None },
        Token::Gt => if lvl == 3 { Some(BinOp::Gt) } else { None },
        Token::Le => if lvl == 3 { Some(BinOp::Le) } else { None },
        Token::Ge => if lvl == 3 { Some(BinOp::Ge) } else { None },
        Token::Plus => if lvl == 2 { Some(BinOp::Add) } else { None },
        Token::Minus => if lvl == 2 { Some(BinOp::Sub) } else { None },
        Token::Shl => if lvl == 1 { Some(BinOp::Shl) } else { None },
        Token::Shr => if lvl == 1 { Some(BinOp::Shr) } else { None },
        Token::Star => if lvl == 0 { Some(BinOp::Mul) } else { None },
        Token::Slash => if lvl == 0 { Some(BinOp::Div) } else { None },
        _ => None,
    }
}

/// The expression `l op r`.
fn binary(op: BinOp, l: Expr, r: Expr) -> (e: Expr)
    ensures
        expr_view(e) == ExprView::Bin(op, Box::new(expr_view(l)), Box::new(expr_view(r))),
{
    let (l, r) = (Box::new(l), Box::new(r));
    match op {
        BinOp::Add => Expr::Add(l, r),
        BinOp::Sub => Expr::Sub(l, r),
        BinOp::Mul => Expr::Mul(l, r),
        BinOp::Div => Expr::Div(l, r),
        BinOp::BitAnd => Expr::BitAnd(l, r),
        BinOp::BitOr => Expr::BitOr(l, r),
        BinOp::BitXor => Expr::BitXor(l, r),
        BinOp::Shl => Expr::Shl(l, r),
        BinOp::Shr => Expr::Shr(l, r),
        BinOp::Eq => Expr::Eq(l, r),
        BinOp::Ne => Expr::Ne(l, r),
        BinOp::Lt => Expr::Lt(l, r),
        BinOp::Gt => Expr::Gt(l, r),
        BinOp::Le => Expr::Le(l, r),
        BinOp::Ge => Expr::Ge(l, r),
        BinOp::And => Expr::And(l, r),
        BinOp::Or => Expr::Or(l, r),
        BinOp::Range => Expr::Range(l, r),
        BinOp::Index => Expr::Index(l, r),
    }
}

/// Parses an expression at `p`.
fn parse_expression(v: &Vec<(Token, Range<usize>)>, p: usize) -> (r: Result<(Expr, usize), String>)
    requires
        p <= v@.len(),
    ensures
        expr_ok(r, expr_at(v@, p as int)),
        r is Ok ==> p < r->Ok_0.1 <= v@.len(),
    decreases v@.len() - p, 13nat,
{
    parse_level(v, p, 9)
}

/// Parses an expression of binary level `lvl` at `p`.
fn parse_level(v: &Vec<(Token, Range<usize>)>, p: usize, lvl: u8) -> (r: Result<(Expr, usize), String>)
    requires
        p <= v@.len(),
        lvl <= 9,
    ensures
        expr_ok(r, level_at(v@, p as int, lvl as nat)),
        r is Ok ==> p < r->Ok_0.1 <= v@.len(),
    decreases v@.len() - p, 3 + lvl,
{
    if lvl == 4 {
        let (left, p1) = match parse_level(v, p, 3) {
            Ok(x) => x,
            Err(e) => return Err(e),
        };
        if p1 < v.len() && matches!(v[p1].0, Token::DotDot) {
            let (right, p2) = match parse_level(v, p1 + 1, 3) {
                Ok(x) => x,
                Err(e) => return Err(e),
            };
            return Ok((Expr::Range(Box::new(left), Box::new(right)), p2));
        }
        return Ok((left, p1));
    }
    if lvl == 3 && p < v.len() && matches!(v[p].0, Token::Not) {
        let (e, p2) = match parse_level(v, p + 1, 3) {
            Ok(x) => x,
            Err(e) => return Err(e),
        };
        return Ok((Expr::Not(Box::new(e)), p2));
    }
    let first = if lvl == 0 {
        parse_postfix(v, p)
    } else {
        parse_level(v, p, lvl - 1)
    };
    let (mut left, mut q) = match first {
        Ok(x) => x,
        Err(e) => return Err(e),
    };
    let ghost target = level_at(v@, p as int, lvl as nat);
    assert(target == level_rest(v@, q as int, lvl as nat, expr_view(left)));
    loop
        invariant
            p < q <= v@.len(),
            lvl <= 9,
            lvl != 4,
            target == level_at(v@, p as int, lvl as nat),
            target == level_rest(v@, q as int, lvl as nat, expr_view(left)),
        decreases v@.len() - q,
    {
        let op = if q < v.len() {
            level_op_of(lvl, &v[q].0)
        } else {
            None
        };
        match op {
            None => {
                return Ok((left, q));
            }
            Some(op) => {
                let next = if lvl == 0 {
                    parse_postfix(v, q + 1)
                } else {
                    parse_level(v, q + 1, lvl - 1)
                };
                let (right, q2) = match next {
                    Ok(x) => x,
                    Err(e) => return Err(e),
                };
                left = binary(op, left, right);
                q = q2;
            }
        }
    }
}

/// Parses a primary expression and what follows it at `p`.
fn parse_postfix(v: &Vec<(Token, Range<usize>)>, p: usize) -> (r: Result<(Expr, usize), String>)
    requires
        p <= v@.len(),
    ensures
        expr_ok(r, postfix_at(v@, p as int)),
        r is Ok ==> p < r->Ok_0.1 <= v@.len(),
    decreases v@.len() - p, 2nat,
{
    let (mut e, mut q) = match parse_primary(v, p) {
        Ok(x) => x,
        Err(x) => return Err(x),
    };
    let ghost target = postfix_at(v@, p as int);
    assert(target == postfix_rest(v@, q as int, expr_view(e)));
    loop
        invariant
            p < q <= v@.len(),
            target == postfix_at(v@, p as int),
            target == postfix_rest(v@, q as int, expr_view(e)),
        decreases v@.len() - q,
    {
        if q < v.len() && matches!(v[q].0, Token::LBracket) {
            let (idx, q2) = match parse_expression(v, q + 1) {
                Ok(x) => x,
                Err(x) => return Err(x),
            };
            let q3 = match expect(v, q2, &Token::RBracket) {
                Ok(x) => x,
                Err(x) => return Err(x),
            };
            e = Expr::Index(Box::new(e), Box::new(idx));
            q = q3;
        } else if q < v.len() && matches!(v[q].0, Token::Dot) {
            if q + 1 < v.len() && matches!(v[q + 1].0, Token::Identifier(_)) {
                let m = match &v[q + 1].0 {
                    Token::Identifier(s) => s.clone(),
                    _ => String::new(),
                };
                if q + 2 < v.len() && matches!(v[q + 2].0, Token::Colon) {
                    let (args, q3) = match parse_call_args(v, q + 3) {
                        Ok(x) => x,
                        Err(x) => return Err(x),
                    };
                    e = Expr::MethodCall(Box::new(e), m, args);
                    q = q3;
                } else {
                    e = Expr::Member(Box::new(e), m);
                    q = q + 2;
                }
            } else {
                let at = if q + 1 < v.len() { q + 2 } else { q + 1 };
                return Err(error_text(v, at, "Expected member name after ."));
            }
        } else {
            return Ok((e, q));
        }
    }
}

/// Parses call arguments from `p`.
fn parse_call_args(v: &Vec<(Token, Range<usize>)>, p: usize) -> (r: Result<(Vec<Expr>, usize), String>)
    requires
        p <= v@.len(),
    ensures
        exprs_ok(r, call_args(v@, p as int, seq![])),
        r is Ok ==> p <= r->Ok_0.1 <= v@.len(),
    decreases v@.len() - p, 14nat,
{
    let mut args: Vec<Expr> = Vec::new();
    let mut q = p;
    let ghost target = call_args(v@, p as int, seq![]);
    assert(exprs_view(args@) =~= Seq::<ExprView>::empty());
    loop
        invariant
            p <= q <= v@.len(),
            target == call_args(v@, p as int, seq![]),
            target == call_args(v@, q as int, exprs_view(args@)),
        decreases v@.len() - q,
    {
        if q >= v.len() || matches!(v[q].0, Token::RBrace | Token::Var | Token::Say | Token::Return | Token::Fn) {
            return Ok((args, q));
        }
        let (a, q2) = match parse_expression(v, q) {
            Ok(x) => x,
            Err(x) => return Err(x),
        };
        let ghost before = args@;
        args.push(a);
        assert(args@.drop_last() == before);
        if q2 < v.len() && matches!(v[q2].0, Token::Comma) {
            q = q2 + 1;
        } else {
            return Ok((args, q2));
        }
    }
}

/// Parses the items of a list literal from `p`.
fn parse_list_items(v: &Vec<(Token, Range<usize>)>, p: usize) -> (r: Result<(Vec<Expr>, usize), String>)
    requires
        p <= v@.len(),
    ensures
        exprs_ok(r, list_items(v@, p as int, seq![])),
        r is Ok ==> p <= r->Ok_0.1 <= v@.len(),
    decreases v@.len() - p, 14nat,
{
    let mut items: Vec<Expr> = Vec::new();
    let mut q = p;
    let ghost target = list_items(v@, p as int, seq![]);
    assert(exprs_view(items@) =~= Seq::<ExprView>::empty());
    loop
        invariant
            p <= q <= v@.len(),
            target == list_items(v@, p as int, seq![]),
            target == list_items(v@, q as int, exprs_view(items@)),
        decreases v@.len() - q,
    {
        if q < v.len() && matches!(v[q].0, Token::RBracket) {
            return Ok((items, q));
        }
        let (a, q2) = match parse_expression(v, q) {
            Ok(x) => x,
            Err(x) => return Err(x),
        };
        let ghost before = items@;
        items.push(a);
        assert(items@.drop_last() == before);
        if q2 < v.len() && matches!(v[q2].0, Token::Comma) {
            q = q2 + 1;
        } else {
            return Ok((items, q2));
        }
    }
}

/// Parses the entries of a map literal from `p`.
fn parse_map_entries(v: &Vec<(Token, Range<usize>)>, p: usize) -> (r: Result<(Vec<(Expr, Expr)>, usize), String>)
    requires
        p <= v@.len(),
    ensures
        entries_ok(r, map_entries(v@, p as int, seq![])),
        r is Ok ==> p <= r->Ok_0.1 <= v@.len(),
    decreases v@.len() - p, 14nat,
{
    let mut es: Vec<(Expr, Expr)> = Vec::new();
    let mut q = p;
    let ghost target = map_entries(v@, p as int, seq![]);
    assert(entries_view(es@) =~= Seq::<(ExprView, ExprView)>::empty());
    loop
        invariant
            p <= q <= v@.len(),
            target == map_entries(v@, p as int, seq![]),
            target == map_entries(v@, q as int, entries_view(es@)),
        decreases v@.len() - q,
    {
        if q < v.len() && matches!(v[q].0, Token::RBrace) {
            return Ok((es, q));
        }
        let (k, q2) = match parse_expression(v, q) {
            Ok(x) => x,
            Err(x) => return Err(x),
        };
        let q3 = match expect(v, q2, &Token::Colon) {
            Ok(x) => x,
            Err(x) => return Err(x),
        };
        let (x, q4) = match parse_expression(v, q3) {
            Ok(x) => x,
            Err(x) => return Err(x),
        };
        let ghost before = es@;
        es.push((k, x));
        assert(es@.drop_last() == before);
        if q4 < v.len() && matches!(v[q4].0, Token::Comma) {
            q = q4 + 1;
        } else {
            return Ok((es, q4));
        }
    }
}

/// Parses a primary expression at `p`.
fn parse_primary(v: &Vec<(Token, Range<usize>)>, p: usize) -> (r: Result<(Expr, usize), String>)
    requires
        p <= v@.len(),
    ensures
        expr_ok(r, primary_at(v@, p as int)),
        r is Ok ==> p < r->Ok_0.1 <= v@.len(),
    decreases v@.len() - p, 1nat,
{
    if p >= v.len() {
        return Err(error_text(v, p, "Unexpected token in expression: None"));
    }
    match &v[p].0 {
        Token::Number(n) => Ok((Expr::Number(*n), p + 1)),
        Token::StringLit(s) => Ok((Expr::String(s.clone()), p + 1)),
        Token::True => Ok((Expr::Bool(true), p + 1)),
        Token::False => Ok((Expr::Bool(false), p + 1)),
        Token::Identifier(name) => {
            if p + 1 < v.len() && matches!(v[p + 1].0, Token::Colon) {
                let (args, p2) = match parse_call_args(v, p + 2) {
                    Ok(x) => x,
                    Err(x) => return Err(x),
                };
                Ok((Expr::Call(name.clone(), args), p2))
            } else {
                Ok((Expr::Identifier(name.clone()), p + 1))
            }
        }
        Token::LParen => {
            let (e, p2) = match parse_expression(v, p + 1) {
                Ok(x) => x,
                Err(x) => return Err(x),
            };
            let p3 = match expect(v, p2, &Token::RParen) {
                Ok(x) => x,
                Err(x) => return Err(x),
            };
            Ok((e, p3))
        }
        Token::LBracket => {
            let (items, p2) = match parse_list_items(v, p + 1) {
                Ok(x) => x,
                Err(x) => return Err(x),
            };
            let p3 = match expect(v, p2, &Token::RBracket) {
                Ok(x) => x,
                Err(x) => return Err(x),
            };
            Ok((Expr::List(items), p3))
        }
        Token::LBrace => {
            let (es, p2) = match parse_map_entries(v, p + 1) {
                Ok(x) => x,
                Err(x) => return Err(x),
            };
            let p3 = match expect(v, p2, &Token::RBrace) {
                Ok(x) => x,
                Err(x) => return Err(x),
            };
            Ok((Expr::Mapping(es), p3))
        }
        Token::Await => {
            let (e, p2) = match parse_primary(v, p + 1) {
                Ok(x) => x,
                Err(x) => return Err(x),
            };
            Ok((Expr::Await(Box::new(e)), p2))
        }
        Token::BitNot => {
            let (e, p2) = match parse_primary(v, p + 1) {
                Ok(x) => x,
                Err(x) => return Err(x),
            };
            Ok((Expr::BitNot(Box::new(e)), p2))
        }
        Token::Minus => {
            let (e, p2) = match parse_primary(v, p + 1) {
                Ok(x) => x,
                Err(x) => return Err(x),
            };
            Ok((Expr::Neg(Box::new(e)), p2))
        }
        Token::Ask => {
            let p2 = match expect(v, p + 1, &Token::Colon) {
                Ok(x) => x,
                Err(x) => return Err(x),
            };
            let (e, p3) = match parse_expression(v, p2) {
                Ok(x) => x,
                Err(x) => return Err(x),
            };
            Ok((Expr::Ask(Box::new(e)), p3))
        }
        other => {
            let a = concat("Unexpected token in expression: Some(", &token_debug_text(other));
            let b = concat(&a, ")");
            Err(error_text(v, p, &b))
        }
    }
}


/// What a parse of a statement gives, against its specification.
pub open spec fn stmt_ok(r: Result<(Stmt, usize), String>, s: Result<(StmtView, int), Seq<char>>) -> bool {
    match s {
        Ok((e, q)) => r is Ok && stmt_view(r->Ok_0.0) == e && r->Ok_0.1 == q,
        Err(m) => r is Err && r->Err_0@ == m,
    }
}

/// What a parse of statements gives, against its specification.
pub open spec fn stmts_ok(r: Result<(Vec<Stmt>, usize), String>, s: Result<(Seq<StmtView>, int), Seq<char>>) -> bool {
    match s {
        Ok((e, q)) => r is Ok && stmts_view(r->Ok_0.0@) == e && r->Ok_0.1 == q,
        Err(m) => r is Err && r->Err_0@ == m,
    }
}

/// What a parse of a struct declaration gives, against its specification.
pub open spec fn struct_ok(r: Result<(StructDef, usize), String>, s: Result<(StructDefView, int), Seq<char>>) -> bool {
    match s {
        Ok((e, q)) => r is Ok && struct_view(r->Ok_0.0) == e && r->Ok_0.1 == q,
        Err(m) => r is Err && r->Err_0@ == m,
    }
}

/// What a parse of a function definition gives, against its specification.
pub open spec fn fn_ok(r: Result<(FnDef, usize), String>, s: Result<(FnDefView, int), Seq<char>>) -> bool {
    match s {
        Ok((e, q)) => r is Ok && fn_view(r->Ok_0.0) == e && r->Ok_0.1 == q,
        Err(m) => r is Err && r->Err_0@ == m,
    }
}

/// What a parse of a top-level item gives, against its specification.
pub open spec fn top_ok(r: Result<(TopLevel, usize), String>, s: Result<(TopView, int), Seq<char>>) -> bool {
    match s {
        Ok((e, q)) => r is Ok && top_view(r->Ok_0.0) == e && r->Ok_0.1 == q,
        Err(m) => r is Err && r->Err_0@ == m,
    }
}

proof fn lemma_names_push(v: Seq<String>, s: String)
    ensures
        names_of(v.push(s)) == names_of(v).push(s@),
{
    assert(names_of(v.push(s)) =~= names_of(v).push(s@));
}

fn identifier_text(t: &Token) -> (r: String)
    requires
        t is Identifier,
    ensures
        r@ == t@->Identifier_0,
{
    match t {
        Token::Identifier(s) => s.clone(),
        _ => String::new(),
    }
}

/// Parses parameter names from `p`.
fn parse_params(v: &Vec<(Token, Range<usize>)>, p: usize) -> (r: (Vec<String>, usize))
    requires
        p <= v@.len(),
    ensures
        (names_of(r.0@), r.1 as int) == param_list(v@, p as int, seq![]),
        p <= r.1 <= v@.len(),
{
    let mut ps: Vec<String> = Vec::new();
    let mut q = p;
    assert(names_of(ps@) =~= Seq::<Seq<char>>::empty());
    loop
        invariant
            p <= q <= v@.len(),
            param_list(v@, p as int, seq![]) == param_list(v@, q as int, names_of(ps@)),
        decreases v@.len() - q,
    {
        if q < v.len() && matches!(v[q].0, Token::Identifier(_)) {
            let s = identifier_text(&v[q].0);
            proof {
                lemma_names_push(ps@, s);
            }
            ps.push(s);
            if q + 1 < v.len() && matches!(v[q + 1].0, Token::Comma) {
                q = q + 2;
            } else {
                return (ps, q + 1);
            }
        } else {
            return (ps, q);
        }
    }
}

/// Parses the field names of a struct from `p`.
fn parse_fields(v: &Vec<(Token, Range<usize>)>, p: usize) -> (r: (Vec<String>, usize))
    requires
        p <= v@.len(),
    ensures
        (names_of(r.0@), r.1 as int) == field_list(v@, p as int, seq![]),
        p <= r.1 <= v@.len(),
{
    let mut fs: Vec<String> = Vec::new();
    let mut q = p;
    assert(names_of(fs@) =~= Seq::<Seq<char>>::empty());
    loop
        invariant
            p <= q <= v@.len(),
            field_list(v@, p as int, seq![]) == field_list(v@, q as int, names_of(fs@)),
        decreases v@.len() - q,
    {
        if q >= v.len() || matches!(v[q].0, Token::RBrace) {
            return (fs, q);
        }
        if matches!(v[q].0, Token::Identifier(_)) {
            let f = identifier_text(&v[q].0);
            proof {
                lemma_names_push(fs@, f);
            }
            fs.push(f);
            if q + 1 < v.len() && matches!(v[q + 1].0, Token::Comma) {
                q = q + 2;
            } else {
                q = q + 1;
            }
        } else {
            return (fs, q + 1);
        }
    }
}

/// Parses a struct declaration at `p`.
fn parse_struct(v: &Vec<(Token, Range<usize>)>, p: usize) -> (r: Result<(StructDef, usize), String>)
    requires
        p <= v@.len(),
    ensures
        struct_ok(r, struct_at(v@, p as int)),
        r is Ok ==> p < r->Ok_0.1 <= v@.len(),
{
    let q0 = if p < v.len() && matches!(v[p].0, Token::Class | Token::Cl | Token::Clg | Token::Clc) {
        p + 1
    } else {
        match expect(v, p, &Token::Struct) {
            Ok(x) => x,
            Err(e) => return Err(e),
        }
    };
    if !(q0 < v.len() && matches!(v[q0].0, Token::Identifier(_))) {
        return Err("Expected struct name".to_string());
    }
    let name = identifier_text(&v[q0].0);
    let q2 = match expect(v, q0 + 1, &Token::LBrace) {
        Ok(x) => x,
        Err(e) => return Err(e),
    };
    let (fields, q3) = parse_fields(v, q2);
    let q4 = match expect(v, q3, &Token::RBrace) {
        Ok(x) => x,
        Err(e) => return Err(e),
    };
    Ok((StructDef { name, fields }, q4))
}

/// Parses a statement at `p`.
fn parse_statement(v: &Vec<(Token, Range<usize>)>, p: usize) -> (r: Result<(Stmt, usize), String>)
    requires
        p <= v@.len(),
    ensures
        stmt_ok(r, stmt_at(v@, p as int)),
        r is Ok ==> p < r->Ok_0.1 <= v@.len(),
    decreases v@.len() - p, 6nat,
{
    if p < v.len() && matches!(v[p].0, Token::Var) {
        if !(p + 1 < v.len() && matches!(v[p + 1].0, Token::Identifier(_))) {
            return Err("Expected variable name".to_string());
        }
        let name = identifier_text(&v[p + 1].0);
        let q = if p + 2 < v.len() && matches!(v[p + 2].0, Token::LBrace) {
            p + 2
        } else {
            match expect(v, p + 2, &Token::Colon) {
                Ok(x) => x,
                Err(e) => return Err(e),
            }
        };
        let (e, q2) = match parse_expression(v, q) {
            Ok(x) => x,
            Err(e) => return Err(e),
        };
        Ok((Stmt::VarDecl(name, e), q2))
    } else if p < v.len() && matches!(v[p].0, Token::Say) {
        let q = match expect(v, p + 1, &Token::Colon) {
            Ok(x) => x,
            Err(e) => return Err(e),
        };
        let (e, q2) = match parse_expression(v, q) {
            Ok(x) => x,
            Err(e) => return Err(e),
        };
        Ok((Stmt::Say(e), q2))
    } else if p < v.len() && matches!(v[p].0, Token::Return) {
        let (e, q) = match parse_expression(v, p + 1) {
            Ok(x) => x,
            Err(e) => return Err(e),
        };
        Ok((Stmt::Return(e), q))
    } else if p < v.len() && matches!(v[p].0, Token::LBrace) {
        let (b, q) = match parse_statements(v, p + 1) {
            Ok(x) => x,
            Err(e) => return Err(e),
        };
        let q2 = match expect(v, q, &Token::RBrace) {
            Ok(x) => x,
            Err(e) => return Err(e),
        };
        Ok((Stmt::Block(b), q2))
    } else if p < v.len() && matches!(v[p].0, Token::If) {
        parse_if(v, p)
    } else if p < v.len() && matches!(v[p].0, Token::While) {
        parse_while(v, p)
    } else if p < v.len() && matches!(v[p].0, Token::For) {
        parse_for(v, p)
    } else if p < v.len() && matches!(v[p].0, Token::Struct | Token::Class | Token::Cl | Token::Clg | Token::Clc) {
        let (d, q) = match parse_struct(v, p) {
            Ok(x) => x,
            Err(e) => return Err(e),
        };
        Ok((Stmt::Struct(d), q))
    } else if p < v.len() && matches!(v[p].0, Token::Try) {
        parse_try(v, p)
    } else if p < v.len() && matches!(v[p].0, Token::Throw) {
        let (e, q) = match parse_expression(v, p + 1) {
            Ok(x) => x,
            Err(e) => return Err(e),
        };
        Ok((Stmt::Throw(e), q))
    } else if p < v.len() && matches!(v[p].0, Token::Import) {
        if p + 1 < v.len() && matches!(v[p + 1].0, Token::StringLit(_)) {
            let s = match &v[p + 1].0 {
                Token::StringLit(s) => s.clone(),
                _ => String::new(),
            };
            Ok((Stmt::Import(s), p + 2))
        } else {
            let at = if p + 1 < v.len() { p + 2 } else { p + 1 };
            Err(error_text(v, at, "Expected string literal after import"))
        }
    } else if p < v.len() && matches!(v[p].0, Token::Fn | Token::Async) {
        let (f, q) = match parse_function(v, p, FnType::Normal) {
            Ok(x) => x,
            Err(e) => return Err(e),
        };
        Ok((Stmt::Expr(Expr::Identifier(f.name)), q))
    } else {
        let (e, q) = match parse_expression(v, p) {
            Ok(x) => x,
            Err(e) => return Err(e),
        };
        if q < v.len() && matches!(v[q].0, Token::Eq) {
            let (x, q2) = match parse_expression(v, q + 1) {
                Ok(x) => x,
                Err(e) => return Err(e),
            };
            Ok((Stmt::Assign(e, x), q2))
        } else {
            Ok((Stmt::Expr(e), q))
        }
    }
}

/// Parses statements from `p` up to a `}`.
fn parse_statements(v: &Vec<(Token, Range<usize>)>, p: usize) -> (r: Result<(Vec<Stmt>, usize), String>)
    requires
        p <= v@.len(),
    ensures
        stmts_ok(r, stmts_at(v@, p as int, seq![])),
        r is Ok ==> p <= r->Ok_0.1 <= v@.len(),
    decreases v@.len() - p, 7nat,
{
    let mut ss: Vec<Stmt> = Vec::new();
    let mut q = p;
    let ghost target = stmts_at(v@, p as int, seq![]);
    assert(stmts_view(ss@) =~= Seq::<StmtView>::empty());
    loop
        invariant
            p <= q <= v@.len(),
            target == stmts_at(v@, p as int, seq![]),
            target == stmts_at(v@, q as int, stmts_view(ss@)),
        decreases v@.len() - q,
    {
        if q < v.len() && matches!(v[q].0, Token::RBrace) {
            return Ok((ss, q));
        }
        let (s, q2) = match parse_statement(v, q) {
            Ok(x) => x,
            Err(e) => return Err(e),
        };
        let ghost before = ss@;
        ss.push(s);
        assert(ss@.drop_last() == before);
        q = q2;
    }
}

/// Parses statements in braces at `p`.
fn parse_braced(v: &Vec<(Token, Range<usize>)>, p: usize) -> (r: Result<(Vec<Stmt>, usize), String>)
    requires
        p <= v@.len(),
    ensures
        stmts_ok(r, braced_at(v@, p as int)),
        r is Ok ==> p < r->Ok_0.1 <= v@.len(),
    decreases v@.len() - p, 8nat,
{
    let q = match expect(v, p, &Token::LBrace) {
        Ok(x) => x,
        Err(e) => return Err(e),
    };
    let (b, q2) = match parse_statements(v, q) {
        Ok(x) => x,
        Err(e) => return Err(e),
    };
    let q3 = match expect(v, q2, &Token::RBrace) {
        Ok(x) => x,
        Err(e) => return Err(e),
    };
    Ok((b, q3))
}

/// Parses an `if` statement at `p`.
fn parse_if(v: &Vec<(Token, Range<usize>)>, p: usize) -> (r: Result<(Stmt, usize), String>)
    requires
        p < v@.len() <= usize::MAX,
    ensures
        stmt_ok(r, if_at(v@, p as int)),
        r is Ok ==> p < r->Ok_0.1 <= v@.len(),
    decreases v@.len() - p, 5nat,
{
    let (c, q) = match parse_expression(v, p + 1) {
        Ok(x) => x,
        Err(e) => return Err(e),
    };
    let (then_b, q2) = match parse_braced(v, q) {
        Ok(x) => x,
        Err(e) => return Err(e),
    };
    if q2 < v.len() && matches!(v[q2].0, Token::Else) {
        let (else_b, q3) = match parse_braced(v, q2 + 1) {
            Ok(x) => x,
            Err(e) => return Err(e),
        };
        Ok((Stmt::If(c, then_b, Some(else_b)), q3))
    } else {
        Ok((Stmt::If(c, then_b, None), q2))
    }
}

/// Parses a `while` statement at `p`.
fn parse_while(v: &Vec<(Token, Range<usize>)>, p: usize) -> (r: Result<(Stmt, usize), String>)
    requires
        p < v@.len() <= usize::MAX,
    ensures
        stmt_ok(r, while_at(v@, p as int)),
        r is Ok ==> p < r->Ok_0.1 <= v@.len(),
    decreases v@.len() - p, 5nat,
{
    let (c, q) = match parse_expression(v, p + 1) {
        Ok(x) => x,
        Err(e) => return Err(e),
    };
    let (b, q2) = match parse_braced(v, q) {
        Ok(x) => x,
        Err(e) => return Err(e),
    };
    Ok((Stmt::While(c, b), q2))
}

/// Parses a `for` statement at `p`.
fn parse_for(v: &Vec<(Token, Range<usize>)>, p: usize) -> (r: Result<(Stmt, usize), String>)
    requires
        p < v@.len() <= usize::MAX,
    ensures
        stmt_ok(r, for_at(v@, p as int)),
        r is Ok ==> p < r->Ok_0.1 <= v@.len(),
    decreases v@.len() - p, 5nat,
{
    if !(p + 1 < v.len() && matches!(v[p + 1].0, Token::Identifier(_))) {
        return Err("Expected variable name after for".to_string());
    }
    let var_name = identifier_text(&v[p + 1].0);
    let q = match expect(v, p + 2, &Token::In) {
        Ok(x) => x,
        Err(e) => return Err(e),
    };
    let (it, q2) = match parse_expression(v, q) {
        Ok(x) => x,
        Err(e) => return Err(e),
    };
    let (b, q3) = match parse_braced(v, q2) {
        Ok(x) => x,
        Err(e) => return Err(e),
    };
    Ok((Stmt::For(var_name, it, b), q3))
}

/// Parses a `try` statement at `p`.
fn parse_try(v: &Vec<(Token, Range<usize>)>, p: usize) -> (r: Result<(Stmt, usize), String>)
    requires
        p < v@.len() <= usize::MAX,
    ensures
        stmt_ok(r, try_at(v@, p as int)),
        r is Ok ==> p < r->Ok_0.1 <= v@.len(),
    decreases v@.len() - p, 5nat,
{
    let (body, q) = match parse_braced(v, p + 1) {
        Ok(x) => x,
        Err(e) => return Err(e),
    };
    let q2 = match expect(v, q, &Token::Catch) {
        Ok(x) => x,
        Err(e) => return Err(e),
    };
    let has_name = q2 < v.len() && matches!(v[q2].0, Token::Identifier(_));
    let name = if has_name {
        identifier_text(&v[q2].0)
    } else {
        "err".to_string()
    };
    let q3 = if has_name { q2 + 1 } else { q2 };
    let (handler, q4) = match parse_braced(v, q3) {
        Ok(x) => x,
        Err(e) => return Err(e),
    };
    Ok((Stmt::TryCatch(body, name, handler), q4))
}

fn fn_keyword_token(ft: FnType) -> (t: Token)
    ensures
        t@ == fn_keyword(ft),
        plain_token(t@),
{
    match ft {
        FnType::Global => Token::Fng,
        FnType::Precompiled => Token::Fnc,
        FnType::Normal => Token::Fn,
    }
}

/// Parses a function definition of type `ft` at `p`.
fn parse_function(v: &Vec<(Token, Range<usize>)>, p: usize, ft: FnType) -> (r: Result<(FnDef, usize), String>)
    requires
        p <= v@.len(),
    ensures
        fn_ok(r, function_at(v@, p as int, ft)),
        r is Ok ==> p < r->Ok_0.1 <= v@.len(),
    decreases v@.len() - p, 5nat,
{
    let is_async = p < v.len() && matches!(v[p].0, Token::Async);
    let q0 = if is_async { p + 1 } else { p };
    let q1 = match expect(v, q0, &fn_keyword_token(ft)) {
        Ok(x) => x,
        Err(e) => return Err(e),
    };
    if !(q1 < v.len() && matches!(v[q1].0, Token::Identifier(_))) {
        return Err("Expected function name".to_string());
    }
    let name = identifier_text(&v[q1].0);
    let (params, q2) = if q1 + 1 < v.len() && matches!(v[q1 + 1].0, Token::LBrace) {
        let ps: Vec<String> = Vec::new();
        assert(names_of(ps@) =~= Seq::<Seq<char>>::empty());
        (ps, q1 + 1)
    } else {
        let q = match expect(v, q1 + 1, &Token::Colon) {
            Ok(x) => x,
            Err(e) => return Err(e),
        };
        parse_params(v, q)
    };
    let (body, q3) = match parse_braced(v, q2) {
        Ok(x) => x,
        Err(e) => return Err(e),
    };
    Ok((FnDef { name, params, body, is_async, is_unsafe: false, fn_type: ft }, q3))
}


/// The position after the parameter names from `p` in a trait's method
/// signature.
fn skip_param_names(v: &Vec<(Token, Range<usize>)>, p: usize) -> (r: usize)
    requires
        p <= v@.len() <= usize::MAX,
    ensures
        r == skip_params(v@, p as int),
        p <= r <= v@.len(),
{
    let mut k = p;
    loop
        invariant
            p <= k <= v@.len() <= usize::MAX,
            skip_params(v@, k as int) == skip_params(v@, p as int),
        decreases v@.len() - k,
    {
        if k < v.len() && matches!(v[k].0, Token::Identifier(_)) {
            if k + 1 < v.len() && matches!(v[k + 1].0, Token::Comma) {
                k = k + 2;
            } else {
                return k + 1;
            }
        } else {
            return k;
        }
    }
}

/// Parses the method names of a trait from `p`.
fn parse_trait_methods(v: &Vec<(Token, Range<usize>)>, p: usize) -> (r: Result<(Vec<String>, usize), String>)
    requires
        p <= v@.len() <= usize::MAX,
    ensures
        match trait_methods(v@, p as int, seq![]) {
            Ok((ms, q)) => r is Ok && names_of(r->Ok_0.0@) == ms && r->Ok_0.1 == q,
            Err(m) => r is Err && r->Err_0@ == m,
        },
        r is Ok ==> p <= r->Ok_0.1 <= v@.len(),
{
    let mut ms: Vec<String> = Vec::new();
    let mut q = p;
    assert(names_of(ms@) =~= Seq::<Seq<char>>::empty());
    loop
        invariant
            p <= q <= v@.len() <= usize::MAX,
            trait_methods(v@, p as int, seq![]) == trait_methods(v@, q as int, names_of(ms@)),
        decreases v@.len() - q,
    {
        if q < v.len() && matches!(v[q].0, Token::RBrace) {
            return Ok((ms, q));
        }
        let q1 = match expect(v, q, &Token::Fn) {
            Ok(x) => x,
            Err(e) => return Err(e),
        };
        if !(q1 < v.len() && matches!(v[q1].0, Token::Identifier(_))) {
            return Err("Expected method name in trait".to_string());
        }
        let m = identifier_text(&v[q1].0);
        let q2 = if q1 + 1 < v.len() && matches!(v[q1 + 1].0, Token::Colon) {
            skip_param_names(v, q1 + 2)
        } else {
            q1 + 1
        };
        let q3 = match expect(v, q2, &Token::Semicolon) {
            Ok(x) => x,
            Err(e) => return Err(e),
        };
        proof {
            lemma_names_push(ms@, m);
        }
        ms.push(m);
        q = q3;
    }
}

/// Parses a trait declaration at `p`.
fn parse_trait(v: &Vec<(Token, Range<usize>)>, p: usize) -> (r: Result<(TraitDef, usize), String>)
    requires
        p < v@.len() <= usize::MAX,
    ensures
        match trait_at(v@, p as int) {
            Ok((d, q)) => r is Ok && (TraitDefView { name: r->Ok_0.0.name@, methods: names_of(r->Ok_0.0.methods@) }) == d
                && r->Ok_0.1 == q,
            Err(m) => r is Err && r->Err_0@ == m,
        },
        r is Ok ==> p < r->Ok_0.1 <= v@.len(),
{
    if !(p + 1 < v.len() && matches!(v[p + 1].0, Token::Identifier(_))) {
        return Err("Expected trait name".to_string());
    }
    let name = identifier_text(&v[p + 1].0);
    let q = match expect(v, p + 2, &Token::LBrace) {
        Ok(x) => x,
        Err(e) => return Err(e),
    };
    let (methods, q2) = match parse_trait_methods(v, q) {
        Ok(x) => x,
        Err(e) => return Err(e),
    };
    let q3 = match expect(v, q2, &Token::RBrace) {
        Ok(x) => x,
        Err(e) => return Err(e),
    };
    Ok((TraitDef { name, methods }, q3))
}

proof fn lemma_fns_push(v: Seq<FnDef>, f: FnDef)
    ensures
        fns_view(v.push(f)) == fns_view(v).push(fn_view(f)),
{
    assert(fns_view(v.push(f)) =~= fns_view(v).push(fn_view(f)));
}

/// Parses the methods of an impl block from `p`.
fn parse_impl_methods(v: &Vec<(Token, Range<usize>)>, p: usize) -> (r: Result<(Vec<FnDef>, usize), String>)
    requires
        p <= v@.len() <= usize::MAX,
    ensures
        match impl_methods(v@, p as int, seq![]) {
            Ok((ms, q)) => r is Ok && fns_view(r->Ok_0.0@) == ms && r->Ok_0.1 == q,
            Err(m) => r is Err && r->Err_0@ == m,
        },
        r is Ok ==> p <= r->Ok_0.1 <= v@.len(),
{
    let mut methods: Vec<FnDef> = Vec::new();
    let mut k = p;
    assert(fns_view(methods@) =~= Seq::<FnDefView>::empty());
    loop
        invariant
            p <= k <= v@.len() <= usize::MAX,
            impl_methods(v@, p as int, seq![]) == impl_methods(v@, k as int, fns_view(methods@)),
        decreases v@.len() - k,
    {
        if k < v.len() && matches!(v[k].0, Token::RBrace) {
            return Ok((methods, k));
        }
        if !(k < v.len() && matches!(v[k].0, Token::Fn | Token::Async)) {
            return Err("Only function definitions are allowed inside impl blocks".to_string());
        }
        let (f, k2) = match parse_function(v, k, FnType::Normal) {
            Ok(x) => x,
            Err(e) => return Err(e),
        };
        proof {
            lemma_fns_push(methods@, f);
        }
        methods.push(f);
        k = k2;
    }
}

/// Parses an impl block at `p`.
fn parse_impl(v: &Vec<(Token, Range<usize>)>, p: usize) -> (r: Result<(ImplBlock, usize), String>)
    requires
        p < v@.len() <= usize::MAX,
    ensures
        match impl_at(v@, p as int) {
            Ok((d, q)) => r is Ok && (ImplView {
                trait_name: r->Ok_0.0.trait_name@,
                for_type: r->Ok_0.0.for_type@,
                methods: fns_view(r->Ok_0.0.methods@),
            }) == d && r->Ok_0.1 == q,
            Err(m) => r is Err && r->Err_0@ == m,
        },
        r is Ok ==> p < r->Ok_0.1 <= v@.len(),
{
    if !(p + 1 < v.len() && matches!(v[p + 1].0, Token::Identifier(_))) {
        return Err("Expected trait name after impl".to_string());
    }
    let trait_name = identifier_text(&v[p + 1].0);
    let q = match expect(v, p + 2, &Token::For) {
        Ok(x) => x,
        Err(e) => return Err(e),
    };
    if !(q < v.len() && matches!(v[q].0, Token::Identifier(_))) {
        return Err("Expected type name after 'for'".to_string());
    }
    let for_type = identifier_text(&v[q].0);
    let q2 = match expect(v, q + 1, &Token::LBrace) {
        Ok(x) => x,
        Err(e) => return Err(e),
    };
    let (methods, k) = match parse_impl_methods(v, q2) {
        Ok(x) => x,
        Err(e) => return Err(e),
    };
    let q4 = match expect(v, k, &Token::RBrace) {
        Ok(x) => x,
        Err(e) => return Err(e),
    };
    Ok((ImplBlock { trait_name, for_type, methods }, q4))
}

/// Parses an `import`, `use` or `upd` item at `p`.
fn parse_file_item(v: &Vec<(Token, Range<usize>)>, p: usize) -> (r: Result<(TopLevel, usize), String>)
    requires
        p < v@.len() <= usize::MAX,
        tok(v@, p as int) == TokenView::Import || tok(v@, p as int) == TokenView::Use || tok(v@, p as int) == TokenView::Upd,
    ensures
        top_ok(r, top_at(v@, p as int)),
        r is Ok ==> p < r->Ok_0.1 <= v@.len(),
{
    if matches!(v[p].0, Token::Import) {
        if p + 1 < v.len() && matches!(v[p + 1].0, Token::StringLit(_)) {
            let s = match &v[p + 1].0 {
                Token::StringLit(s) => s.clone(),
                _ => String::new(),
            };
            Ok((TopLevel::Import(s), p + 2))
        } else {
            let at = if p + 1 < v.len() { p + 2 } else { p + 1 };
            Err(error_text(v, at, "Expected string literal after import"))
        }
    } else {
        let is_use = matches!(v[p].0, Token::Use);
        if p + 1 < v.len() && matches!(v[p + 1].0, Token::Identifier(_)) {
            let s = identifier_text(&v[p + 1].0);
            if is_use {
                Ok((TopLevel::Use(concat(&s, ".fr")), p + 2))
            } else {
                Ok((TopLevel::Hardwire(concat(&s, ".frx")), p + 2))
            }
        } else {
            let at = if p + 1 < v.len() { p + 2 } else { p + 1 };
            if is_use {
                Err(error_text(v, at, "Expected filename after use"))
            } else {
                Err(error_text(v, at, "Expected filename after upd"))
            }
        }
    }
}

/// Parses a top-level item at `p`.
fn parse_top_level(v: &Vec<(Token, Range<usize>)>, p: usize) -> (r: Result<(TopLevel, usize), String>)
    requires
        p < v@.len() <= usize::MAX,
    ensures
        top_ok(r, top_at(v@, p as int)),
        r is Ok ==> p < r->Ok_0.1 <= v@.len(),
{
    if matches!(v[p].0, Token::Fn | Token::Async) {
        let (f, q) = match parse_function(v, p, FnType::Normal) {
            Ok(x) => x,
            Err(e) => return Err(e),
        };
        Ok((TopLevel::Function(f), q))
    } else if matches!(v[p].0, Token::Fng) {
        let (f, q) = match parse_function(v, p, FnType::Global) {
            Ok(x) => x,
            Err(e) => return Err(e),
        };
        Ok((TopLevel::Function(f), q))
    } else if matches!(v[p].0, Token::Fnc) {
        let (f, q) = match parse_function(v, p, FnType::Precompiled) {
            Ok(x) => x,
            Err(e) => return Err(e),
        };
        Ok((TopLevel::Function(f), q))
    } else if matches!(v[p].0, Token::Struct | Token::Class | Token::Cl | Token::Clg | Token::Clc) {
        let (d, q) = match parse_struct(v, p) {
            Ok(x) => x,
            Err(e) => return Err(e),
        };
        Ok((TopLevel::Struct(d), q))
    } else if matches!(v[p].0, Token::Trait) {
        let (d, q) = match parse_trait(v, p) {
            Ok(x) => x,
            Err(e) => return Err(e),
        };
        Ok((TopLevel::Trait(d), q))
    } else if matches!(v[p].0, Token::Impl) {
        let (d, q) = match parse_impl(v, p) {
            Ok(x) => x,
            Err(e) => return Err(e),
        };
        Ok((TopLevel::Impl(d), q))
    } else if matches!(v[p].0, Token::Import | Token::Use | Token::Upd) {
        parse_file_item(v, p)
    } else {
        let (s, q) = match parse_statement(v, p) {
            Ok(x) => x,
            Err(e) => return Err(e),
        };
        Ok((TopLevel::Statement(s), q))
    }
}

/// The program that the tokens `v` make, from position `p`, or the first
/// error.
pub open spec fn program_from(v: Seq<(Token, Range<usize>)>, p: int) -> Result<Seq<TopView>, Seq<char>> {
    items_at(v, p, seq![])
}

/// A parser over a sequence of tokens with their byte spans.
pub struct Parser {
    tokens: Vec<(Token, Range<usize>)>,
    pos: usize,
}

impl Parser {
    /// The tokens the parser reads.
    pub closed spec fn tokens(&self) -> Seq<(Token, Range<usize>)> {
        self.tokens@
    }

    /// The position it reads next.
    pub closed spec fn position(&self) -> int {
        self.pos as int
    }

    /// A parser at the start of `tokens`.
    pub fn new(tokens: Vec<(Token, Range<usize>)>) -> (r: Self)
        ensures
            r.tokens() == tokens@,
            r.position() == 0,
    {
        Parser { tokens, pos: 0 }
    }

    /// Parses the items from the current position to the end: the program,
    /// or the first error.
    pub fn parse(&mut self) -> (r: Result<Program, String>)
        requires
            old(self).position() <= old(self).tokens().len(),
        ensures
            final(self).tokens() == old(self).tokens(),
            match program_from(old(self).tokens(), old(self).position()) {
                Ok(items) => r is Ok && program_view(r->Ok_0) == items,
                Err(m) => r is Err && r->Err_0@ == m,
            },
    {
        let mut program = Program::new();
        let n = self.tokens.len();
        let ghost start = self.pos as int;
        let ghost acc: Seq<TopView> = seq![];
        assert(program_view(program) =~= Seq::<TopView>::empty());
        while self.pos < self.tokens.len()
            invariant
                self.tokens@ == old(self).tokens@,
                n == self.tokens@.len(),
                start == old(self).pos as int,
                self.pos <= n,
                program_from(self.tokens@, start) == items_at(self.tokens@, self.pos as int, program_view(program)),
            decreases n - self.pos,
        {
            let (item, q) = match parse_top_level(&self.tokens, self.pos) {
                Ok(x) => x,
                Err(e) => return Err(e),
            };
            let ghost before = program_view(program);
            program.items.push(item);
            assert(program_view(program) =~= before.push(top_view(item)));
            self.pos = q;
        }
        Ok(program)
    }
}

/// The program that the text `s` holds: the tokens of the lexer (some
/// sequence with their byte spans), read by the parser from the start; or
/// the lexer's error, or the parser's.
pub open spec fn parsed(s: Seq<char>, r: Result<Program, String>) -> bool {
    match lex_from(s, 0) {
        Err(i) => r is Err && r->Err_0@ == lex_error_message(s, i),
        Ok(ts) => exists|v: Seq<(Token, Range<usize>)>| {
            &&& spans_match(s, v, ts)
            &&& match #[trigger] program_from(v, 0) {
                Ok(items) => r is Ok && program_view(r->Ok_0) == items,
                Err(m) => r is Err && r->Err_0@ == m,
            }
        },
    }
}

/// Parses `source`: it is preprocessed with the commands of `profile` (those
/// of the profiles its `use` lines name), split into tokens, and read as a
/// program.
pub fn parse(source: &str, profile: &SyntaxProfile) -> (r: Result<Program, String>)
    requires
        profile.params_named(),
    ensures
        parsed(preprocess_spec(source@, *profile), r),
{
    let text = preprocess_source(source, profile);
    let tokens = match lex(text.as_str()) {
        Ok(t) => t,
        Err(e) => return Err(e),
    };
    let ghost v = tokens@;
    let mut parser = Parser::new(tokens);
    let r = parser.parse();
    proof {
        let ts = lex_from(text@, 0)->Ok_0;
        assert(spans_match(text@, v, ts));
        // The tokens the lexer gave are the witness of `parsed`.
        assert(program_from(v, 0) == program_from(v, 0));
    }
    r
}

/// The token that spells a binary operator and the level at which it binds
/// (0 binds tightest, 9 loosest); `None` for the range and index operators,
/// which are not read as a chain of operands.
pub open spec fn op_spelling(op: BinOp) -> Option<(TokenView, nat)> {
    match op {
        BinOp::Mul => Some((TokenView::Star, 0)),
        BinOp::Div => Some((TokenView::Slash, 0)),
        BinOp::Shl => Some((TokenView::Shl, 1)),
        BinOp::Shr => Some((TokenView::Shr, 1)),
        BinOp::Add => Some((TokenView::Plus, 2)),
        BinOp::Sub => Some((TokenView::Minus, 2)),
        BinOp::Eq => Some((TokenView::EqEq, 3)),
        BinOp::Ne => Some((TokenView::Ne, 3)),
        BinOp::Lt => Some((TokenView::Lt, 3)),
        BinOp::Gt => Some((TokenView::Gt, 3)),
        BinOp::Le => Some((TokenView::Le, 3)),
        BinOp::Ge => Some((TokenView::Ge, 3)),
        BinOp::BitAnd => Some((TokenView::BitAnd, 5)),
        BinOp::BitXor => Some((TokenView::BitXor, 6)),
        BinOp::BitOr => Some((TokenView::BitOr, 7)),
        BinOp::And => Some((TokenView::And, 8)),
        BinOp::Or => Some((TokenView::Or, 9)),
        BinOp::Range => None,
        BinOp::Index => None,
    }
}

/// A token continues a chain of operands at a level exactly when it spells
/// an operator of that level, and the chain then applies the operator the
/// token spells: `<` gives `Lt` (never `Gt`), `/` gives `Div`, `-` gives
/// `Sub`, and so on; no two operators share a token.
pub proof fn law_operator_tokens(lvl: nat, t: TokenView, op: BinOp)
    ensures
        level_op(lvl, t) == Some(op) <==> op_spelling(op) == Some((t, lvl)),
        forall|o: BinOp| op_spelling(o) is Some && op_spelling(o) == op_spelling(op) ==> o == op,
{
}

/// Reading `left`, an operator token of level `lvl` and a right operand
/// builds the operator that the token spells, with `left` on its left and
/// the right operand on its right.
pub proof fn law_chain_applies_spelled_operator(v: Seq<(Token, Range<usize>)>, p: int, lvl: nat, left: ExprView, op: BinOp)
    requires
        0 <= p < v.len(),
        op_spelling(op) == Some((tok(v, p), lvl)),
    ensures
        ({
            let next = if lvl == 0 { postfix_at(v, p + 1) } else { level_at(v, p + 1, (lvl - 1) as nat) };
            next matches Ok((right, p2)) ==> (p < p2 <= v.len() ==> level_rest(v, p, lvl, left) == level_rest(
                v,
                p2,
                lvl,
                ExprView::Bin(op, Box::new(left), Box::new(right)),
            ))
        }),
{
    law_operator_tokens(lvl, tok(v, p), op);
}

/// A prefix operator applies to the operand read after it: `-x` negates,
/// `~x` negates bitwise, and `await x` awaits, each of the operand that
/// follows, ending where that operand ends.
pub proof fn law_prefix_operators(v: Seq<(Token, Range<usize>)>, p: int, e: ExprView, p2: int)
    requires
        0 <= p < v.len(),
        primary_at(v, p + 1) == Ok::<(ExprView, int), Seq<char>>((e, p2)),
    ensures
        tok(v, p) == TokenView::Minus ==> primary_at(v, p) == Ok::<(ExprView, int), Seq<char>>((ExprView::Un(UnOp::Neg, Box::new(e)), p2)),
        tok(v, p) == TokenView::BitNot ==> primary_at(v, p) == Ok::<(ExprView, int), Seq<char>>((ExprView::Un(UnOp::BitNot, Box::new(e)), p2)),
        tok(v, p) == TokenView::Await ==> primary_at(v, p) == Ok::<(ExprView, int), Seq<char>>((ExprView::Un(UnOp::Await, Box::new(e)), p2)),
{
}

} // verus!
