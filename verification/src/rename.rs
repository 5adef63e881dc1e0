//! The Binder Renamer.
//!
//! The rewritten body runs inside nested callback closures whose scope is
//! not the original function scope, so the two distinguished binders — the
//! implicit receiver and the declared context parameter — are renamed
//! everywhere to two fixed internal names that the emitted closures bind.
//! The rename reaches every identifier token, including the argument
//! tokens of macro-like invocations, whose internals are otherwise not
//! parsed; a macro's path is left untouched.

use vstd::prelude::*;
use crate::ast::{Block, ElseBranch, Expr, ForExpr, IfExpr, Stmt, Token};
use crate::ast::{SpecElse, SpecExpr, SpecFor, SpecIf, SpecStmt};
use crate::ast::{SYM_CTX_INTERNAL, SYM_SELF, SYM_SELF_INTERNAL};
use crate::ast::{lemma_view_stmts, lemma_view_stmts_push, view_block, view_else, view_expr, view_for, view_if, view_stmt, view_stmts};

verus! {

/// Rename one symbol: the receiver and the context parameter become the
/// two fixed internal names; every other symbol is kept.
pub open spec fn rename_sym(sym: u32, ctx: u32) -> u32 {
    if sym == SYM_SELF {
        SYM_SELF_INTERNAL
    } else if sym == ctx {
        SYM_CTX_INTERNAL
    } else {
        sym
    }
}

/// Rename one token: only identifier tokens are touched.
pub open spec fn rename_token(t: Token, ctx: u32) -> Token {
    match t {
        Token::Ident(sym) => Token::Ident(rename_sym(sym, ctx)),
        Token::Other(code) => Token::Other(code),
    }
}

/// Rename a token run, token by token.
pub open spec fn rename_tokens(ts: Seq<Token>, ctx: u32) -> Seq<Token> {
    Seq::new(ts.len(), |i: int| rename_token(ts[i], ctx))
}

/// Rename every statement of a sequence.
pub open spec fn rename_stmts_spec(ss: Seq<SpecStmt>, ctx: u32) -> Seq<SpecStmt>
    decreases ss,
{
    if ss.len() == 0 {
        Seq::empty()
    } else {
        rename_stmts_spec(ss.drop_last(), ctx).push(rename_stmt_spec(ss.last(), ctx))
    }
}

/// Rename a statement.
pub open spec fn rename_stmt_spec(s: SpecStmt, ctx: u32) -> SpecStmt
    decreases s,
{
    match s {
        SpecStmt::Expr(e) => SpecStmt::Expr(rename_expr_spec(e, ctx)),
        SpecStmt::Local { pat, init: Some(e) } => SpecStmt::Local {
            pat: rename_tokens(pat, ctx),
            init: Some(rename_expr_spec(e, ctx)),
        },
        SpecStmt::Local { pat, init: None } => SpecStmt::Local {
            pat: rename_tokens(pat, ctx),
            init: None,
        },
        SpecStmt::Assign { target, rhs } => SpecStmt::Assign {
            target: rename_tokens(target, ctx),
            rhs: rename_expr_spec(rhs, ctx),
        },
        SpecStmt::Opaque(toks) => SpecStmt::Opaque(rename_tokens(toks, ctx)),
    }
}

/// Rename an expression.  A macro-like invocation keeps its path and has
/// only its raw argument tokens rescanned.
pub open spec fn rename_expr_spec(e: SpecExpr, ctx: u32) -> SpecExpr
    decreases e,
{
    match e {
        SpecExpr::Opaque(toks) => SpecExpr::Opaque(rename_tokens(toks, ctx)),
        SpecExpr::Await(base) => SpecExpr::Await(rename_tokens(base, ctx)),
        SpecExpr::If(b) => SpecExpr::If(Box::new(rename_if_spec(*b, ctx))),
        SpecExpr::For(f) => SpecExpr::For(Box::new(rename_for_spec(*f, ctx))),
        SpecExpr::Macro { path, args } => SpecExpr::Macro {
            path: path,
            args: rename_tokens(args, ctx),
        },
    }
}

/// Rename a conditional.
pub open spec fn rename_if_spec(e: SpecIf, ctx: u32) -> SpecIf
    decreases e,
{
    SpecIf {
        cond: rename_tokens(e.cond, ctx),
        then_branch: rename_stmts_spec(e.then_branch, ctx),
        else_branch: rename_else_spec(e.else_branch, ctx),
    }
}

/// Rename an optional else arm.
pub open spec fn rename_else_spec(el: Option<SpecElse>, ctx: u32) -> Option<SpecElse>
    decreases el,
{
    match el {
        None => None,
        Some(SpecElse::Else(b)) => Some(SpecElse::Else(rename_stmts_spec(b, ctx))),
        Some(SpecElse::ElseIf(b)) => Some(SpecElse::ElseIf(Box::new(rename_if_spec(*b, ctx)))),
    }
}

/// Rename a definite loop.
pub open spec fn rename_for_spec(f: SpecFor, ctx: u32) -> SpecFor
    decreases f,
{
    SpecFor {
        pat: rename_tokens(f.pat, ctx),
        iter: rename_tokens(f.iter, ctx),
        body: rename_stmts_spec(f.body, ctx),
    }
}

/// Rename one identifier symbol (the executable rename of one name).
pub fn fold_ident(sym: u32, ctx: u32) -> (r: u32)
    ensures
        r == rename_sym(sym, ctx),
{
    if sym == SYM_SELF {
        SYM_SELF_INTERNAL
    } else if sym == ctx {
        SYM_CTX_INTERNAL
    } else {
        sym
    }
}

/// Rename a token run.
pub fn fold_tokens(toks: Vec<Token>, ctx: u32) -> (r: Vec<Token>)
    ensures
        r@ == rename_tokens(toks@, ctx),
{
    let mut r: Vec<Token> = Vec::new();
    let mut i: usize = 0;
    while i < toks.len()
        invariant
            i <= toks@.len(),
            r@ == rename_tokens(toks@, ctx).subrange(0, i as int),
        decreases toks@.len() - i,
    {
        let t = match toks[i] {
            Token::Ident(sym) => Token::Ident(fold_ident(sym, ctx)),
            Token::Other(code) => Token::Other(code),
        };
        r.push(t);
        proof {
            assert(r@ =~= rename_tokens(toks@, ctx).subrange(0, i + 1));
        }
        i = i + 1;
    }
    proof {
        assert(r@ =~= rename_tokens(toks@, ctx));
    }
    r
}

/// Rescan a macro-like invocation: the path is kept, the raw argument
/// tokens are renamed one identifier token at a time.
pub fn fold_macro(path: Vec<Token>, args: Vec<Token>, ctx: u32) -> (r: (Vec<Token>, Vec<Token>))
    ensures
        r.0@ == path@,
        r.1@ == rename_tokens(args@, ctx),
{
    let renamed = fold_tokens(args, ctx);
    (path, renamed)
}

/// Rename every statement of a block's statement list.
pub fn fold_stmts(stmts: Vec<Stmt>, ctx: u32) -> (r: Vec<Stmt>)
    ensures
        view_stmts(r@) == rename_stmts_spec(view_stmts(stmts@), ctx),
    decreases stmts@,
{
    let mut rest = stmts;
    if rest.len() == 0 {
        proof {
            assert(view_stmts(rest@) =~= Seq::<SpecStmt>::empty());
            assert(view_stmts(stmts@).len() == 0);
        }
        return rest;
    }
    let ghost vss = view_stmts(stmts@);
    let s = rest.pop().unwrap();
    proof {
        lemma_view_stmts(stmts@);
        lemma_view_stmts(rest@);
        assert(rest@ == stmts@.drop_last());
        assert(vss.drop_last() =~= view_stmts(rest@)) by {
            assert forall|i: int| 0 <= i < rest@.len() implies vss.drop_last()[i] == view_stmts(
                rest@,
            )[i] by {
                assert(vss[i] == view_stmt(stmts@[i]));
                assert(stmts@[i] == rest@[i]);
            }
        }
        assert(vss.last() == view_stmt(s));
    }
    let mut out = fold_stmts(rest, ctx);
    let ghost outv = view_stmts(out@);
    let s2 = fold_stmt(s, ctx);
    let ghost oldout = out@;
    out.push(s2);
    proof {
        lemma_view_stmts_push(oldout, s2);
        assert(view_stmts(out@) == outv.push(view_stmt(s2)));
    }
    out
}

/// Rename a statement.
pub fn fold_stmt(s: Stmt, ctx: u32) -> (r: Stmt)
    ensures
        view_stmt(r) == rename_stmt_spec(view_stmt(s), ctx),
    decreases s,
{
    match s {
        Stmt::Expr(e) => Stmt::Expr(fold_expr(e, ctx)),
        Stmt::Local { pat, init } => {
            let pat2 = fold_tokens(pat, ctx);
            match init {
                Some(e) => Stmt::Local { pat: pat2, init: Some(fold_expr(e, ctx)) },
                None => Stmt::Local { pat: pat2, init: None },
            }
        },
        Stmt::Assign { target, rhs } => Stmt::Assign {
            target: fold_tokens(target, ctx),
            rhs: fold_expr(rhs, ctx),
        },
        Stmt::Opaque(toks) => Stmt::Opaque(fold_tokens(toks, ctx)),
    }
}

/// Rename an expression.
pub fn fold_expr(e: Expr, ctx: u32) -> (r: Expr)
    ensures
        view_expr(r) == rename_expr_spec(view_expr(e), ctx),
    decreases e,
{
    match e {
        Expr::Opaque(toks) => Expr::Opaque(fold_tokens(toks, ctx)),
        Expr::Await(base) => Expr::Await(fold_tokens(base, ctx)),
        Expr::If(b) => Expr::If(Box::new(fold_if(*b, ctx))),
        Expr::For(f) => Expr::For(Box::new(fold_for(*f, ctx))),
        Expr::Macro { path, args } => {
            let (path2, args2) = fold_macro(path, args, ctx);
            Expr::Macro { path: path2, args: args2 }
        },
    }
}

/// Rename a conditional.
pub fn fold_if(e: IfExpr, ctx: u32) -> (r: IfExpr)
    ensures
        view_if(r) == rename_if_spec(view_if(e), ctx),
    decreases e,
{
    let ghost vif = view_if(e);
    let IfExpr { cond, then_branch, else_branch } = e;
    let cond2 = fold_tokens(cond, ctx);
    let then2 = Block { stmts: fold_stmts(then_branch.stmts, ctx) };
    let else2 = fold_else(else_branch, ctx);
    let r = IfExpr { cond: cond2, then_branch: then2, else_branch: else2 };
    proof {
        assert(vif.then_branch == view_block(then_branch));
        assert(view_if(r).cond == rename_if_spec(vif, ctx).cond);
        assert(view_if(r).then_branch == rename_if_spec(vif, ctx).then_branch);
        assert(view_if(r).else_branch == rename_if_spec(vif, ctx).else_branch);
    }
    r
}

/// Rename an optional else arm.
pub fn fold_else(el: Option<ElseBranch>, ctx: u32) -> (r: Option<ElseBranch>)
    ensures
        view_else(r) == rename_else_spec(view_else(el), ctx),
    decreases el,
{
    match el {
        None => None,
        Some(ElseBranch::Else(b)) => Some(
            ElseBranch::Else(Block { stmts: fold_stmts(b.stmts, ctx) }),
        ),
        Some(ElseBranch::ElseIf(b)) => Some(ElseBranch::ElseIf(Box::new(fold_if(*b, ctx)))),
    }
}

/// Rename a definite loop.
pub fn fold_for(f: ForExpr, ctx: u32) -> (r: ForExpr)
    ensures
        view_for(r) == rename_for_spec(view_for(f), ctx),
    decreases f,
{
    let ForExpr { pat, iter, body } = f;
    ForExpr {
        pat: fold_tokens(pat, ctx),
        iter: fold_tokens(iter, ctx),
        body: Block { stmts: fold_stmts(body.stmts, ctx) },
    }
}

/// Rename a whole block: every occurrence of the receiver name and of the
/// declared context parameter name, at any depth, becomes the matching
/// internal name; no other identifier is altered.
pub fn fold_block(b: Block, ctx: u32) -> (r: Block)
    ensures
        view_block(r) == rename_stmts_spec(view_block(b), ctx),
{
    Block { stmts: fold_stmts(b.stmts, ctx) }
}

} // verus!
