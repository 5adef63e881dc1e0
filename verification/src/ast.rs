//! The structural model of a handler body as the transformer sees it.
//!
//! The host language's parser and pretty-printer are external collaborators:
//! the transformer consumes and produces trees in this model, and everything
//! it does not inspect is carried as runs of opaque tokens.  Identifiers and
//! other lexemes are interned by the embedder to `u32` codes; a handful of
//! codes are reserved for the names the transformer itself must recognize or
//! emit.

use vstd::prelude::*;

verus! {

/// The receiver name (`self`) of the handler method.
pub const SYM_SELF: u32 = 0;

/// The stable internal name the receiver is renamed to (`__self`).
pub const SYM_SELF_INTERNAL: u32 = 1;

/// The stable internal name the context parameter is renamed to (`__ctx`).
pub const SYM_CTX_INTERNAL: u32 = 2;

/// The reserved name a suspension's result is bound to (`__res`).
pub const SYM_RES: u32 = 3;

/// The reserved accumulator name threaded through a loop fold (`__acc`).
pub const SYM_ACC: u32 = 4;

/// The name of the message-handler trait (`Handler`).
pub const SYM_HANDLER: u32 = 5;

/// The name of the declared result associated type (`Result`).
pub const SYM_RESULT: u32 = 6;

/// The name of the handler method (`handle`).
pub const SYM_HANDLE: u32 = 7;

/// The configuration token selecting non-atomic response mode (`non_atomic`).
pub const SYM_NON_ATOMIC: u32 = 8;

/// The deferred-computation wrapper name for atomic mode (`AtomicResponse`).
pub const SYM_ATOMIC_RESPONSE: u32 = 9;

/// The deferred-computation wrapper name for non-atomic mode
/// (`ResponseActFuture`).
pub const SYM_RESPONSE_ACT_FUTURE: u32 = 10;

/// The first interning code free for the embedder's own use.
pub const SYM_FIRST_FREE: u32 = 11;

/// One lexeme of otherwise-unparsed source text.
#[derive(Debug, Clone, Copy, PartialEq, Eq)]
pub enum Token {
    /// An identifier-shaped token, as an interned symbol code.
    Ident(u32),
    /// Any other lexeme (punctuation, literal, delimiter), interned verbatim.
    Other(u32),
}

/// An ordered sequence of statements owned by one construct.
#[derive(Debug, PartialEq, Eq)]
pub struct Block {
    pub stmts: Vec<Stmt>,
}

/// A statement, as far as the transformer inspects it.
#[derive(Debug, PartialEq, Eq)]
pub enum Stmt {
    /// An expression statement.
    Expr(Expr),
    /// A variable declaration `let pat = init;` (or `let pat;`).
    Local { pat: Vec<Token>, init: Option<Expr> },
    /// An assignment `target = rhs;` to an existing binding.
    Assign { target: Vec<Token>, rhs: Expr },
    /// Any other statement, passed through verbatim.
    Opaque(Vec<Token>),
}

/// An expression, as far as the transformer inspects it.
#[derive(Debug, PartialEq, Eq)]
pub enum Expr {
    /// An expression the transformer does not look into.
    Opaque(Vec<Token>),
    /// A suspension trigger; the operand ("base") is carried verbatim.
    Await(Vec<Token>),
    /// A conditional with a condition, a then block and an optional else arm.
    If(Box<IfExpr>),
    /// A definite iteration loop over an iterable expression.
    For(Box<ForExpr>),
    /// A macro-like invocation: a path and a raw argument token stream.
    Macro { path: Vec<Token>, args: Vec<Token> },
}

/// A conditional construct; a chained `else if` nests in `else_branch`.
#[derive(Debug, PartialEq, Eq)]
pub struct IfExpr {
    pub cond: Vec<Token>,
    pub then_branch: Block,
    pub else_branch: Option<ElseBranch>,
}

/// The else arm of a conditional.
#[derive(Debug, PartialEq, Eq)]
pub enum ElseBranch {
    /// A plain `else { ... }` block.
    Else(Block),
    /// A chained `else if ...`.
    ElseIf(Box<IfExpr>),
}

/// A definite iteration loop: `for pat in iter { body }`.
#[derive(Debug, PartialEq, Eq)]
pub struct ForExpr {
    pub pat: Vec<Token>,
    pub iter: Vec<Token>,
    pub body: Block,
}

/// The mathematical model of a [`Stmt`]: token runs become sequences.
pub enum SpecStmt {
    Expr(SpecExpr),
    Local { pat: Seq<Token>, init: Option<SpecExpr> },
    Assign { target: Seq<Token>, rhs: SpecExpr },
    Opaque(Seq<Token>),
}

/// The mathematical model of an [`Expr`].
pub enum SpecExpr {
    Opaque(Seq<Token>),
    Await(Seq<Token>),
    If(Box<SpecIf>),
    For(Box<SpecFor>),
    Macro { path: Seq<Token>, args: Seq<Token> },
}

/// The mathematical model of an [`IfExpr`]; a block is modelled directly as
/// the sequence of its statements.
pub struct SpecIf {
    pub cond: Seq<Token>,
    pub then_branch: Seq<SpecStmt>,
    pub else_branch: Option<SpecElse>,
}

/// The mathematical model of an [`ElseBranch`].
pub enum SpecElse {
    Else(Seq<SpecStmt>),
    ElseIf(Box<SpecIf>),
}

/// The mathematical model of a [`ForExpr`].
pub struct SpecFor {
    pub pat: Seq<Token>,
    pub iter: Seq<Token>,
    pub body: Seq<SpecStmt>,
}

/// The model of a statement.
pub open spec fn view_stmt(s: Stmt) -> SpecStmt
    decreases s,
{
    match s {
        Stmt::Expr(e) => SpecStmt::Expr(view_expr(e)),
        Stmt::Local { pat, init: Some(e) } => SpecStmt::Local {
            pat: pat@,
            init: Some(view_expr(e)),
        },
        Stmt::Local { pat, init: None } => SpecStmt::Local { pat: pat@, init: None },
        Stmt::Assign { target, rhs } => SpecStmt::Assign { target: target@, rhs: view_expr(rhs) },
        Stmt::Opaque(toks) => SpecStmt::Opaque(toks@),
    }
}

/// The model of an expression.
pub open spec fn view_expr(e: Expr) -> SpecExpr
    decreases e,
{
    match e {
        Expr::Opaque(toks) => SpecExpr::Opaque(toks@),
        Expr::Await(base) => SpecExpr::Await(base@),
        Expr::If(b) => SpecExpr::If(Box::new(view_if(*b))),
        Expr::For(f) => SpecExpr::For(Box::new(view_for(*f))),
        Expr::Macro { path, args } => SpecExpr::Macro { path: path@, args: args@ },
    }
}

/// The model of a conditional.
pub open spec fn view_if(e: IfExpr) -> SpecIf
    decreases e,
{
    SpecIf {
        cond: e.cond@,
        then_branch: view_block(e.then_branch),
        else_branch: view_else(e.else_branch),
    }
}

/// The model of an optional else arm.
pub open spec fn view_else(e: Option<ElseBranch>) -> Option<SpecElse>
    decreases e,
{
    match e {
        None => None,
        Some(ElseBranch::Else(b)) => Some(SpecElse::Else(view_block(b))),
        Some(ElseBranch::ElseIf(b)) => Some(SpecElse::ElseIf(Box::new(view_if(*b)))),
    }
}

/// The model of a definite loop.
pub open spec fn view_for(f: ForExpr) -> SpecFor
    decreases f,
{
    SpecFor { pat: f.pat@, iter: f.iter@, body: view_block(f.body) }
}

/// The model of a block: the sequence of its statement models.
pub open spec fn view_block(b: Block) -> Seq<SpecStmt>
    decreases b,
{
    view_stmts(b.stmts@)
}

/// The model of a sequence of statements, element by element.
pub open spec fn view_stmts(ss: Seq<Stmt>) -> Seq<SpecStmt>
    decreases ss,
{
    if ss.len() == 0 {
        Seq::empty()
    } else {
        view_stmts(ss.drop_last()).push(view_stmt(ss.last()))
    }
}

/// The model of an optional token run.
pub open spec fn view_tokens_opt(v: Option<Vec<Token>>) -> Option<Seq<Token>> {
    match v {
        None => None,
        Some(toks) => Some(toks@),
    }
}

/// Copy a token run (tokens are plain values).
pub fn copy_tokens(v: &Vec<Token>) -> (r: Vec<Token>)
    ensures
        r@ == v@,
{
    let mut r: Vec<Token> = Vec::new();
    let mut i: usize = 0;
    while i < v.len()
        invariant
            i <= v.len(),
            r@ == v@.subrange(0, i as int),
        decreases v.len() - i,
    {
        r.push(v[i]);
        i = i + 1;
    }
    proof {
        assert(r@ =~= v@);
    }
    r
}

/// `view_stmts` maps the sequence pointwise.
pub proof fn lemma_view_stmts(ss: Seq<Stmt>)
    ensures
        view_stmts(ss).len() == ss.len(),
        forall|i: int| 0 <= i < ss.len() ==> view_stmts(ss)[i] == view_stmt(#[trigger] ss[i]),
    decreases ss.len(),
{
    if ss.len() > 0 {
        lemma_view_stmts(ss.drop_last());
        assert forall|i: int| 0 <= i < ss.len() implies view_stmts(ss)[i] == view_stmt(
            #[trigger] ss[i],
        ) by {
            if i < ss.len() - 1 {
                assert(ss.drop_last()[i] == ss[i]);
            }
        }
    }
}

/// Appending a statement appends its model.
pub proof fn lemma_view_stmts_push(ss: Seq<Stmt>, s: Stmt)
    ensures
        view_stmts(ss.push(s)) == view_stmts(ss).push(view_stmt(s)),
{
    assert(ss.push(s).drop_last() =~= ss);
    assert(ss.push(s).last() == s);
}

} // verus!
