//! The structural model of the transformer's output.
//!
//! A handler body is split into [`Segment`]s, which are folded into a
//! right-nested continuation [`Chain`].  Conditionals and loops whose arms or
//! bodies suspend become [`Trigger`]s carrying their own sub-chains.  The
//! embedder re-emits these trees as source text.

use vstd::prelude::*;
use crate::ast::{Block, IfExpr, SpecIf, SpecStmt, Stmt, Token};
use crate::ast::{view_block, view_if, view_stmts};

verus! {

/// The response mode selected by the configuration token.
///
/// In atomic mode no other message is dispatched to the same actor while a
/// chain is outstanding; in non-atomic mode other messages may interleave
/// between chain steps.  The choice only selects the emitted wrapper name.
#[derive(Debug, PartialEq, Eq, Clone, Copy)]
pub enum Mode {
    Atomic,
    NonAtomic,
}

/// The binding that receives the reserved result name at the head of a
/// segment, once the preceding suspension's value is available.
#[derive(Debug, PartialEq, Eq)]
pub enum Bind {
    /// `let pat = __res;` — a fresh declaration.
    Decl(Vec<Token>),
    /// `target = __res;` — an assignment to an existing binding.
    Assign(Vec<Token>),
}

/// A maximal run of statements with at most one trailing suspension trigger.
///
/// Concatenated in order, the segments of a block carry every statement of
/// the block: `bind` and `trigger` are the wrapping inserted where a
/// suspension point split the block.
#[derive(Debug, PartialEq, Eq)]
pub struct Segment {
    /// Receives the previous trigger's result; `None` in the first segment.
    pub bind: Option<Bind>,
    /// The statements run by this segment, in source order.
    pub body: Vec<Stmt>,
    /// The deferred computation this segment ends with; `None` only in the
    /// final segment of a block.
    pub trigger: Option<Trigger>,
}

/// A deferred computation that terminates a segment.
#[derive(Debug, PartialEq, Eq)]
pub enum Trigger {
    /// A bare suspension: the awaited operand, wrapped as a future handle.
    Future(Vec<Token>),
    /// A transformed conditional: two uniformly shaped handle-producing arms.
    Cond(CondHandle),
    /// A transformed definite loop: a sequential fold over the iterable.
    Fold(LoopFold),
}

/// A conditional rewritten into an expression whose arms each produce a
/// deferred-computation handle of the same shape.
#[derive(Debug, PartialEq, Eq)]
pub struct CondHandle {
    pub cond: Vec<Token>,
    pub then_arm: Arm,
    pub else_arm: Arm,
}

/// One arm of a transformed conditional.
#[derive(Debug, PartialEq, Eq)]
pub enum Arm {
    /// A suspending arm: its statements assembled into a sub-chain and
    /// pinned as a handle.
    Chain(Box<Chain>),
    /// A non-suspending block arm, wrapped as an already-ready handle.
    /// With `unit_value` the block's value is discarded and the handle
    /// yields the unit value instead.
    Ready { body: Block, unit_value: bool },
    /// A non-suspending chained `else if`, wrapped whole as an
    /// already-ready handle.
    ReadyIf { if_expr: Box<IfExpr>, unit_value: bool },
    /// The absent else arm of a suspending conditional: an already-ready
    /// unit value.
    ReadyUnit,
    /// A chained `else if` that itself required transformation, spliced in
    /// directly as the else arm.
    ElseIf(Box<CondHandle>),
}

/// A definite loop rewritten into a sequential fold that threads an
/// accumulator through one deferred computation per iteration.
#[derive(Debug, PartialEq, Eq)]
pub struct LoopFold {
    /// The loop variable pattern.
    pub pat: Vec<Token>,
    /// The iterable expression.
    pub iter: Vec<Token>,
    /// The accumulator target when the loop's result is assigned into an
    /// existing binding; `None` when the loop is a plain statement and the
    /// accumulator is a unit value.
    pub acc: Option<Vec<Token>>,
    /// The per-iteration sub-chain; its final step yields the new
    /// accumulator value.
    pub body: Box<Chain>,
}

/// What the final map step of a chain yields.
#[derive(Debug, PartialEq, Eq)]
pub enum ChainRet {
    /// The trailing value of the final segment's own statements.
    Value,
    /// A forced unit value.
    Unit,
    /// The accumulator variable (used by loop-body chains).
    Acc(Vec<Token>),
}

/// A right-nested continuation chain assembled from a block's segments.
///
/// Each step runs its segment's binding and statements; a [`Chain::Step`]
/// then starts its trigger and continues into `rest` once the trigger's
/// result is available, while a [`Chain::Last`] maps the final result.
#[derive(Debug, PartialEq, Eq)]
pub enum Chain {
    /// An empty final segment with no value to map: the preceding trigger's
    /// handle is itself the chain's result.
    Done,
    /// The final map step.
    Last { bind: Option<Bind>, body: Vec<Stmt>, ret: ChainRet },
    /// A non-final step awaiting its trigger before `rest` continues.
    Step { bind: Option<Bind>, body: Vec<Stmt>, trigger: Trigger, rest: Box<Chain> },
}

/// The mathematical model of a [`Bind`].
pub enum SpecBind {
    Decl(Seq<Token>),
    Assign(Seq<Token>),
}

/// The mathematical model of a [`Segment`].
pub struct SpecSegment {
    pub bind: Option<SpecBind>,
    pub body: Seq<SpecStmt>,
    pub trigger: Option<SpecTrigger>,
}

/// The mathematical model of a [`Trigger`].
pub enum SpecTrigger {
    Future(Seq<Token>),
    Cond(SpecCond),
    Fold(SpecFold),
}

/// The mathematical model of a [`CondHandle`].
pub struct SpecCond {
    pub cond: Seq<Token>,
    pub then_arm: SpecArm,
    pub else_arm: SpecArm,
}

/// The mathematical model of an [`Arm`].
pub enum SpecArm {
    Chain(Box<SpecChain>),
    Ready { body: Seq<SpecStmt>, unit_value: bool },
    ReadyIf { if_expr: Box<SpecIf>, unit_value: bool },
    ReadyUnit,
    ElseIf(Box<SpecCond>),
}

/// The mathematical model of a [`LoopFold`].
pub struct SpecFold {
    pub pat: Seq<Token>,
    pub iter: Seq<Token>,
    pub acc: Option<Seq<Token>>,
    pub body: Box<SpecChain>,
}

/// The mathematical model of a [`ChainRet`].
pub enum SpecRet {
    Value,
    Unit,
    Acc(Seq<Token>),
}

/// The mathematical model of a [`Chain`].
pub enum SpecChain {
    Done,
    Last { bind: Option<SpecBind>, body: Seq<SpecStmt>, ret: SpecRet },
    Step { bind: Option<SpecBind>, body: Seq<SpecStmt>, trigger: SpecTrigger, rest: Box<SpecChain> },
}

/// The model of a binding.
pub open spec fn view_bind(b: Bind) -> SpecBind {
    match b {
        Bind::Decl(pat) => SpecBind::Decl(pat@),
        Bind::Assign(target) => SpecBind::Assign(target@),
    }
}

/// The model of an optional binding.
pub open spec fn view_bind_opt(b: Option<Bind>) -> Option<SpecBind> {
    match b {
        None => None,
        Some(b) => Some(view_bind(b)),
    }
}

/// The model of a returned-value selector.
pub open spec fn view_ret(r: ChainRet) -> SpecRet {
    match r {
        ChainRet::Value => SpecRet::Value,
        ChainRet::Unit => SpecRet::Unit,
        ChainRet::Acc(toks) => SpecRet::Acc(toks@),
    }
}

/// The model of a segment.
pub open spec fn view_segment(s: Segment) -> SpecSegment
    decreases s,
{
    SpecSegment {
        bind: view_bind_opt(s.bind),
        body: view_stmts(s.body@),
        trigger: match s.trigger {
            None => None,
            Some(t) => Some(view_trigger(t)),
        },
    }
}

/// The model of a trigger.
pub open spec fn view_trigger(t: Trigger) -> SpecTrigger
    decreases t,
{
    match t {
        Trigger::Future(base) => SpecTrigger::Future(base@),
        Trigger::Cond(h) => SpecTrigger::Cond(view_cond(h)),
        Trigger::Fold(f) => SpecTrigger::Fold(view_fold(f)),
    }
}

/// The model of a transformed conditional.
pub open spec fn view_cond(h: CondHandle) -> SpecCond
    decreases h,
{
    SpecCond {
        cond: h.cond@,
        then_arm: view_arm(h.then_arm),
        else_arm: view_arm(h.else_arm),
    }
}

/// The model of a conditional arm.
pub open spec fn view_arm(a: Arm) -> SpecArm
    decreases a,
{
    match a {
        Arm::Chain(c) => SpecArm::Chain(Box::new(view_chain(*c))),
        Arm::Ready { body, unit_value } => SpecArm::Ready {
            body: view_block(body),
            unit_value,
        },
        Arm::ReadyIf { if_expr, unit_value } => SpecArm::ReadyIf {
            if_expr: Box::new(view_if(*if_expr)),
            unit_value,
        },
        Arm::ReadyUnit => SpecArm::ReadyUnit,
        Arm::ElseIf(h) => SpecArm::ElseIf(Box::new(view_cond(*h))),
    }
}

/// The model of a transformed loop.
pub open spec fn view_fold(f: LoopFold) -> SpecFold
    decreases f,
{
    SpecFold {
        pat: f.pat@,
        iter: f.iter@,
        acc: match f.acc {
            None => None,
            Some(toks) => Some(toks@),
        },
        body: Box::new(view_chain(*f.body)),
    }
}

/// The model of a chain.
pub open spec fn view_chain(c: Chain) -> SpecChain
    decreases c,
{
    match c {
        Chain::Done => SpecChain::Done,
        Chain::Last { bind, body, ret } => SpecChain::Last {
            bind: view_bind_opt(bind),
            body: view_stmts(body@),
            ret: view_ret(ret),
        },
        Chain::Step { bind, body, trigger, rest } => SpecChain::Step {
            bind: view_bind_opt(bind),
            body: view_stmts(body@),
            trigger: view_trigger(trigger),
            rest: Box::new(view_chain(*rest)),
        },
    }
}

/// The model of a sequence of segments, element by element.
pub open spec fn view_segments(ss: Seq<Segment>) -> Seq<SpecSegment>
    decreases ss,
{
    if ss.len() == 0 {
        Seq::empty()
    } else {
        view_segments(ss.drop_last()).push(view_segment(ss.last()))
    }
}

/// `view_segments` maps the sequence pointwise.
pub proof fn lemma_view_segments(ss: Seq<Segment>)
    ensures
        view_segments(ss).len() == ss.len(),
        forall|i: int|
            0 <= i < ss.len() ==> view_segments(ss)[i] == view_segment(#[trigger] ss[i]),
    decreases ss.len(),
{
    if ss.len() > 0 {
        lemma_view_segments(ss.drop_last());
        assert forall|i: int| 0 <= i < ss.len() implies view_segments(ss)[i] == view_segment(
            #[trigger] ss[i],
        ) by {
            if i < ss.len() - 1 {
                assert(ss.drop_last()[i] == ss[i]);
            }
        }
    }
}

/// Appending a segment appends its model.
pub proof fn lemma_view_segments_push(ss: Seq<Segment>, s: Segment)
    ensures
        view_segments(ss.push(s)) == view_segments(ss).push(view_segment(s)),
{
    assert(ss.push(s).drop_last() =~= ss);
    assert(ss.push(s).last() == s);
}

} // verus!
