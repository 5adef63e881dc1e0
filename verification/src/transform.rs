//! The transformation model: segmentation and the conditional and loop
//! rewrites, stated over the mathematical models of the trees.
//!
//! [`split_spec`] is the Segmenter: it scans a block in order, closing the
//! current segment at each suspension-bearing construct.  [`if_spec`] and
//! [`for_spec`] are the Conditional and Loop Transformers; they recurse into
//! their arms and bodies through the Segmenter, and assemble sub-chains with
//! [`assemble_spec`].  The executable transformer is proved to return
//! exactly these models of its output.

use vstd::prelude::*;
use crate::ast::{Block, ElseBranch, Expr, ForExpr, IfExpr, Stmt, Token};
use crate::ast::{SpecElse, SpecExpr, SpecIf, SpecFor, SpecStmt};
use crate::ast::{copy_tokens, lemma_view_stmts, lemma_view_stmts_push, view_block, view_for, view_if, view_stmt, view_stmts, view_tokens_opt};
use crate::out::{Arm, Bind, ChainRet, CondHandle, LoopFold, Segment, Trigger};
use crate::out::{SpecArm, SpecBind, SpecCond, SpecFold, SpecRet, SpecSegment, SpecTrigger};
use crate::out::{lemma_view_segments, lemma_view_segments_push, view_bind_opt, view_cond, view_fold, view_segment, view_segments, view_trigger};
use crate::chain::{assemble_spec, build_future_chain};

verus! {

/// A freshly opened segment: no binding, no statements, no trigger yet.
pub open spec fn empty_segment() -> SpecSegment {
    SpecSegment { bind: None, body: Seq::empty(), trigger: None }
}

/// One Segmenter step: fold the next statement into the segment list.
///
/// A non-boundary statement extends the current (last) segment; a boundary
/// closes it with the boundary's trigger and opens a new segment headed by
/// the boundary's binding.
pub open spec fn split_step(
    segs: Seq<SpecSegment>,
    s: SpecStmt,
    boundary: Option<(SpecTrigger, Option<SpecBind>)>,
) -> Seq<SpecSegment> {
    let k = segs.len() - 1;
    match boundary {
        None => segs.update(
            k,
            SpecSegment { bind: segs[k].bind, body: segs[k].body.push(s), trigger: segs[k].trigger },
        ),
        Some((t, bind)) => segs.update(
            k,
            SpecSegment { bind: segs[k].bind, body: segs[k].body, trigger: Some(t) },
        ).push(SpecSegment { bind: bind, body: Seq::empty(), trigger: None }),
    }
}

/// The Segmenter: the ordered segment list of a statement sequence.
///
/// Scanning in order, each statement either joins the current segment or,
/// if it is a suspension boundary, closes it.  A sequence with no boundary
/// yields exactly one segment holding the statements unchanged.
pub open spec fn split_spec(ss: Seq<SpecStmt>) -> Seq<SpecSegment>
    decreases ss,
{
    if ss.len() == 0 {
        seq![empty_segment()]
    } else {
        split_step(split_spec(ss.drop_last()), ss.last(), boundary_spec(ss.last()))
    }
}

/// Whether a statement is a segmentation boundary and, if so, with which
/// trigger and which binding for the trigger's eventual result.
///
/// Boundaries are: a bare suspension statement; an assignment or
/// declaration whose right-hand side is a suspension, a suspending
/// conditional or a suspending loop; a conditional statement one of whose
/// arms suspends; and a loop statement whose body suspends.  Everything
/// else passes through inside the current segment.
pub open spec fn boundary_spec(s: SpecStmt) -> Option<(SpecTrigger, Option<SpecBind>)>
    decreases s,
{
    match s {
        SpecStmt::Expr(e) => match e {
            SpecExpr::Await(base) => Some((SpecTrigger::Future(base), None)),
            SpecExpr::If(b) => match if_spec(*b, true) {
                Some(h) => Some((SpecTrigger::Cond(h), None)),
                None => None,
            },
            SpecExpr::For(f) => match for_spec(*f, None) {
                Some(l) => Some((SpecTrigger::Fold(l), None)),
                None => None,
            },
            _ => None,
        },
        SpecStmt::Local { pat, init: Some(e) } => match e {
            SpecExpr::Await(base) => Some(
                (SpecTrigger::Future(base), Some(SpecBind::Decl(pat))),
            ),
            SpecExpr::If(b) => match if_spec(*b, false) {
                Some(h) => Some((SpecTrigger::Cond(h), Some(SpecBind::Decl(pat)))),
                None => None,
            },
            SpecExpr::For(f) => match for_spec(*f, Some(pat)) {
                Some(l) => Some((SpecTrigger::Fold(l), Some(SpecBind::Decl(pat)))),
                None => None,
            },
            _ => None,
        },
        SpecStmt::Assign { target, rhs } => match rhs {
            SpecExpr::Await(base) => Some(
                (SpecTrigger::Future(base), Some(SpecBind::Assign(target))),
            ),
            SpecExpr::If(b) => match if_spec(*b, false) {
                Some(h) => Some((SpecTrigger::Cond(h), Some(SpecBind::Assign(target)))),
                None => None,
            },
            SpecExpr::For(f) => match for_spec(*f, Some(target)) {
                Some(l) => Some((SpecTrigger::Fold(l), Some(SpecBind::Assign(target)))),
                None => None,
            },
            _ => None,
        },
        _ => None,
    }
}

/// The Conditional Transformer.
///
/// `None` means no transformation is needed: neither arm's segmentation has
/// more than one segment, so the conditional stays a single statement of
/// the enclosing segment.  Otherwise each arm becomes a handle of the same
/// shape: a suspending arm assembles its own sub-chain, a non-suspending
/// arm is wrapped as an already-ready value, and an absent else arm becomes
/// an already-ready unit value.  With `unit_value` both arm chains discard
/// the arm's value and yield unit (the conditional stood as a statement).
pub open spec fn if_spec(e: SpecIf, unit_value: bool) -> Option<SpecCond>
    decreases e,
{
    let then_segs = split_spec(e.then_branch);
    let ret = if unit_value {
        SpecRet::Unit
    } else {
        SpecRet::Value
    };
    if then_segs.len() > 1 {
        let then_arm = SpecArm::Chain(Box::new(assemble_spec(then_segs, ret)));
        let else_arm = match e.else_branch {
            None => SpecArm::ReadyUnit,
            Some(SpecElse::Else(else_stmts)) => {
                let else_segs = split_spec(else_stmts);
                if else_segs.len() > 1 {
                    SpecArm::Chain(Box::new(assemble_spec(else_segs, ret)))
                } else {
                    SpecArm::Ready { body: else_stmts, unit_value }
                }
            },
            Some(SpecElse::ElseIf(b2)) => match if_spec(*b2, unit_value) {
                Some(h2) => SpecArm::ElseIf(Box::new(h2)),
                None => SpecArm::ReadyIf { if_expr: b2, unit_value },
            },
        };
        Some(SpecCond { cond: e.cond, then_arm, else_arm })
    } else {
        match e.else_branch {
            None => None,
            Some(SpecElse::Else(else_stmts)) => {
                let else_segs = split_spec(else_stmts);
                if else_segs.len() > 1 {
                    Some(
                        SpecCond {
                            cond: e.cond,
                            then_arm: SpecArm::Ready { body: e.then_branch, unit_value },
                            else_arm: SpecArm::Chain(Box::new(assemble_spec(else_segs, ret))),
                        },
                    )
                } else {
                    None
                }
            },
            Some(SpecElse::ElseIf(b2)) => match if_spec(*b2, unit_value) {
                Some(h2) => Some(
                    SpecCond {
                        cond: e.cond,
                        then_arm: SpecArm::Ready { body: e.then_branch, unit_value },
                        else_arm: SpecArm::ElseIf(Box::new(h2)),
                    },
                ),
                None => None,
            },
        }
    }
}

/// The Loop Transformer.
///
/// `None` means the loop body's segmentation has a single segment, so the
/// loop passes through unchanged.  Otherwise the loop becomes a sequential
/// fold over the iterable: the accumulator is the assigned target when the
/// loop's result is bound (`acc`), or a unit value when the loop stands as
/// a plain statement, and each iteration's body is its own sub-chain whose
/// final step yields the new accumulator value.
pub open spec fn for_spec(f: SpecFor, acc: Option<Seq<Token>>) -> Option<SpecFold>
    decreases f,
{
    let body_segs = split_spec(f.body);
    if body_segs.len() > 1 {
        let ret = match acc {
            Some(a) => SpecRet::Acc(a),
            None => SpecRet::Unit,
        };
        Some(
            SpecFold {
                pat: f.pat,
                iter: f.iter,
                acc: acc,
                body: Box::new(assemble_spec(body_segs, ret)),
            },
        )
    } else {
        None
    }
}

/// The number of segmentation boundaries in a statement sequence.
pub open spec fn n_bounds(ss: Seq<SpecStmt>) -> nat
    decreases ss.len(),
{
    if ss.len() == 0 {
        0
    } else {
        n_bounds(ss.drop_last()) + (if boundary_spec(ss.last()) is Some {
            1nat
        } else {
            0nat
        })
    }
}

/// Shape of the Segmenter's output: a sequence with `n` boundaries splits
/// into exactly `n + 1` segments; the first segment has no binding, the
/// final one no trigger, every other one a trigger; and with no boundary at
/// all, the single segment carries the statements unchanged.
pub proof fn lemma_split_shape(ss: Seq<SpecStmt>)
    ensures
        split_spec(ss).len() == n_bounds(ss) + 1,
        split_spec(ss)[0].bind is None,
        split_spec(ss).last().trigger is None,
        forall|i: int|
            0 <= i < split_spec(ss).len() - 1 ==> (#[trigger] split_spec(ss)[i]).trigger is Some,
        n_bounds(ss) == 0 ==> split_spec(ss) == seq![
            SpecSegment { bind: None, body: ss, trigger: None },
        ],
    decreases ss.len(),
{
    if ss.len() == 0 {
        assert(split_spec(ss) == seq![empty_segment()]);
        assert(ss =~= Seq::<SpecStmt>::empty());
        assert(split_spec(ss) =~= seq![SpecSegment { bind: None, body: ss, trigger: None }]);
    } else {
        lemma_split_shape(ss.drop_last());
        let prev = split_spec(ss.drop_last());
        let k = prev.len() - 1;
        match boundary_spec(ss.last()) {
            None => {
                let updated = SpecSegment {
                    bind: prev[k].bind,
                    body: prev[k].body.push(ss.last()),
                    trigger: prev[k].trigger,
                };
                assert(split_spec(ss) == prev.update(k, updated));
                if n_bounds(ss) == 0 {
                    assert(prev == seq![
                        SpecSegment { bind: None, body: ss.drop_last(), trigger: None },
                    ]);
                    assert(ss.drop_last().push(ss.last()) =~= ss);
                    assert(split_spec(ss) =~= seq![
                        SpecSegment { bind: None, body: ss, trigger: None },
                    ]);
                }
            },
            Some((t, bind)) => {
                let closed = SpecSegment { bind: prev[k].bind, body: prev[k].body, trigger: Some(t) };
                assert(split_spec(ss) == prev.update(k, closed).push(
                    SpecSegment { bind: bind, body: Seq::empty(), trigger: None },
                ));
            },
        }
    }
}

/// The verdict on one statement: either it passes through into the current
/// segment (possibly rebuilt, value unchanged), or it is a segmentation
/// boundary with its trigger and result binding.
enum Boundary {
    No(Stmt),
    Yes(Trigger, Option<Bind>),
}

/// Decide whether a statement splits the block here, transforming a
/// suspending conditional or loop on the way.
fn classify(s: Stmt) -> (r: Boundary)
    ensures
        match r {
            Boundary::No(s2) => view_stmt(s2) == view_stmt(s) && boundary_spec(view_stmt(s))
                is None,
            Boundary::Yes(t, b) => boundary_spec(view_stmt(s)) == Some(
                (view_trigger(t), view_bind_opt(b)),
            ),
        },
    decreases s,
{
    match s {
        Stmt::Expr(e) => match e {
            Expr::Await(base) => Boundary::Yes(Trigger::Future(base), None),
            Expr::If(b) => match expr_if_inner(*b, true) {
                Ok(h) => Boundary::Yes(Trigger::Cond(h), None),
                Err(orig) => Boundary::No(Stmt::Expr(Expr::If(Box::new(orig)))),
            },
            Expr::For(f) => match expr_for_loop(*f, None) {
                Ok(l) => Boundary::Yes(Trigger::Fold(l), None),
                Err(orig) => Boundary::No(Stmt::Expr(Expr::For(Box::new(orig)))),
            },
            other => Boundary::No(Stmt::Expr(other)),
        },
        Stmt::Local { pat, init } => match init {
            Some(e) => match e {
                Expr::Await(base) => Boundary::Yes(
                    Trigger::Future(base),
                    Some(Bind::Decl(pat)),
                ),
                Expr::If(b) => match expr_if_inner(*b, false) {
                    Ok(h) => Boundary::Yes(Trigger::Cond(h), Some(Bind::Decl(pat))),
                    Err(orig) => Boundary::No(
                        Stmt::Local { pat, init: Some(Expr::If(Box::new(orig))) },
                    ),
                },
                Expr::For(f) => {
                    let acc = copy_tokens(&pat);
                    match expr_for_loop(*f, Some(acc)) {
                        Ok(l) => Boundary::Yes(Trigger::Fold(l), Some(Bind::Decl(pat))),
                        Err(orig) => Boundary::No(
                            Stmt::Local { pat, init: Some(Expr::For(Box::new(orig))) },
                        ),
                    }
                },
                other => Boundary::No(Stmt::Local { pat, init: Some(other) }),
            },
            None => Boundary::No(Stmt::Local { pat, init: None }),
        },
        Stmt::Assign { target, rhs } => match rhs {
            Expr::Await(base) => Boundary::Yes(
                Trigger::Future(base),
                Some(Bind::Assign(target)),
            ),
            Expr::If(b) => match expr_if_inner(*b, false) {
                Ok(h) => Boundary::Yes(Trigger::Cond(h), Some(Bind::Assign(target))),
                Err(orig) => Boundary::No(
                    Stmt::Assign { target, rhs: Expr::If(Box::new(orig)) },
                ),
            },
            Expr::For(f) => {
                let acc = copy_tokens(&target);
                match expr_for_loop(*f, Some(acc)) {
                    Ok(l) => Boundary::Yes(Trigger::Fold(l), Some(Bind::Assign(target))),
                    Err(orig) => Boundary::No(
                        Stmt::Assign { target, rhs: Expr::For(Box::new(orig)) },
                    ),
                }
            },
            other => Boundary::No(Stmt::Assign { target, rhs: other }),
        },
        other => Boundary::No(other),
    }
}

/// Split a statement sequence into its ordered segments.
fn split_stmts(stmts: Vec<Stmt>) -> (segs: Vec<Segment>)
    ensures
        view_segments(segs@) == split_spec(view_stmts(stmts@)),
        segs@.len() >= 1,
    decreases stmts@,
{
    let mut rest = stmts;
    if rest.len() == 0 {
        let mut segs: Vec<Segment> = Vec::new();
        let seg = Segment { bind: None, body: Vec::new(), trigger: None };
        let ghost segv = seg;
        segs.push(seg);
        proof {
            reveal_with_fuel(view_segments, 2);
            assert(segs@ =~= seq![segv]);
            assert(segs@.drop_last() =~= Seq::<Segment>::empty());
            assert(segv.body@ =~= Seq::<Stmt>::empty());
            assert(view_stmts(segv.body@) =~= Seq::<SpecStmt>::empty());
            assert(view_segment(segv) == empty_segment());
            assert(view_segments(segs@) =~= seq![empty_segment()]);
            assert(view_stmts(stmts@).len() == 0);
            assert(split_spec(view_stmts(stmts@)) == seq![empty_segment()]);
        }
        return segs;
    }
    let ghost vss = view_stmts(stmts@);
    let s = rest.pop().unwrap();
    proof {
        lemma_view_stmts(stmts@);
        lemma_view_stmts(rest@);
        assert(rest@ == stmts@.drop_last());
        assert(vss.drop_last() =~= view_stmts(rest@)) by {
            assert forall|i: int| 0 <= i < rest@.len() implies vss.drop_last()[i] == view_stmts(
                rest@,
            )[i] by {
                assert(vss[i] == view_stmt(stmts@[i]));
                assert(stmts@[i] == rest@[i]);
            }
        }
        assert(vss.last() == view_stmt(s));
        assert(vss.len() > 0);
    }
    let mut segs = split_stmts(rest);
    let ghost prev = view_segments(segs@);
    proof {
        lemma_view_segments(segs@);
        assert(prev == split_spec(vss.drop_last()));
        assert(split_spec(vss) == split_step(prev, vss.last(), boundary_spec(vss.last())));
    }
    let ghost k = prev.len() - 1;
    match classify(s) {
        Boundary::No(s2) => {
            let mut last = segs.pop().unwrap();
            let ghost lastv = view_segment(last);
            let ghost front = segs@;
            let ghost oldbody = last.body@;
            last.body.push(s2);
            proof {
                lemma_view_stmts_push(oldbody, s2);
                assert(last.body@ == oldbody.push(s2));
                assert(view_stmts(last.body@) == view_stmts(oldbody).push(view_stmt(s2)));
            }
            segs.push(last);
            proof {
                assert(prev[k] == lastv);
                lemma_view_segments_push(front, last);
                assert(view_segment(last) == SpecSegment {
                    bind: lastv.bind,
                    body: lastv.body.push(view_stmt(s)),
                    trigger: lastv.trigger,
                });
                assert(view_segments(front) =~= prev.drop_last()) by {
                    lemma_view_segments(front);
                }
                assert(view_segments(segs@) =~= prev.update(
                    k,
                    SpecSegment {
                        bind: prev[k].bind,
                        body: prev[k].body.push(vss.last()),
                        trigger: prev[k].trigger,
                    },
                ));
            }
        },
        Boundary::Yes(t, b) => {
            let mut last = segs.pop().unwrap();
            let ghost lastv = view_segment(last);
            let ghost front = segs@;
            last.trigger = Some(t);
            segs.push(last);
            let ghost mid = segs@;
            let new_seg = Segment { bind: b, body: Vec::new(), trigger: None };
            let ghost new_seg_v = new_seg;
            segs.push(new_seg);
            proof {
                assert(prev[k] == lastv);
                lemma_view_segments_push(front, last);
                assert(view_segments(front) =~= prev.drop_last()) by {
                    lemma_view_segments(front);
                }
                lemma_view_segments_push(mid, new_seg_v);
                assert(view_segments(mid) =~= prev.update(
                    k,
                    SpecSegment { bind: prev[k].bind, body: prev[k].body, trigger: view_segment(
                        last,
                    ).trigger },
                ));
                assert(view_segments(segs@) =~= split_step(
                    prev,
                    vss.last(),
                    boundary_spec(vss.last()),
                ));
            }
        },
    }
    segs
}

/// The Segmenter: split a block into its ordered segments at each
/// suspension point.
pub fn split_awaits(block: Block) -> (segs: Vec<Segment>)
    ensures
        view_segments(segs@) == split_spec(view_block(block)),
        segs@.len() >= 1,
{
    split_stmts(block.stmts)
}

/// The Conditional Transformer: rewrite a conditional whose arms suspend
/// into a pair of uniformly shaped handle-producing arms, or give the
/// conditional back unchanged when neither arm suspends.
#[verifier::rlimit(80)]
pub fn expr_if_inner(e: IfExpr, unit_value: bool) -> (r: Result<CondHandle, IfExpr>)
    ensures
        match r {
            Ok(h) => if_spec(view_if(e), unit_value) == Some(view_cond(h)),
            Err(orig) => view_if(orig) == view_if(e) && if_spec(view_if(e), unit_value) is None,
        },
    decreases e,
{
    let ghost vif = view_if(e);
    let IfExpr { cond, then_branch, else_branch } = e;
    let ghost vthen = view_block(then_branch);
    proof {
        assert(vif == SpecIf { cond: cond@, then_branch: vthen, else_branch: vif.else_branch });
        lemma_split_shape(vthen);
    }
    let then_segs = split_stmts(then_branch.stmts);
    proof {
        lemma_view_segments(then_segs@);
    }
    let ghost vspec = if_spec(view_if(e), unit_value);
    if then_segs.len() > 1 {
        let ret = if unit_value {
            ChainRet::Unit
        } else {
            ChainRet::Value
        };
        let then_arm = Arm::Chain(Box::new(build_future_chain(then_segs, ret)));
        let else_arm: crate::out::Arm = match else_branch {
            None => Arm::ReadyUnit,
            Some(ElseBranch::Else(b)) => {
                let ghost velse_stmts = view_block(b);
                proof {
                    lemma_split_shape(velse_stmts);
                }
                let else_segs = split_stmts(b.stmts);
                proof {
                    lemma_view_segments(else_segs@);
                }
                if else_segs.len() > 1 {
                    let ret2 = if unit_value {
                        ChainRet::Unit
                    } else {
                        ChainRet::Value
                    };
                    Arm::Chain(Box::new(build_future_chain(else_segs, ret2)))
                } else {
                    let mut es = else_segs;
                    let seg0 = es.remove(0);
                    proof {
                        assert(view_segment(seg0) == split_spec(velse_stmts)[0]);
                        assert(view_stmts(seg0.body@) == velse_stmts);
                    }
                    Arm::Ready { body: Block { stmts: seg0.body }, unit_value }
                }
            },
            Some(ElseBranch::ElseIf(b2)) => match expr_if_inner(*b2, unit_value) {
                Ok(h2) => Arm::ElseIf(Box::new(h2)),
                Err(orig) => Arm::ReadyIf { if_expr: Box::new(orig), unit_value },
            },
        };
        let h = CondHandle { cond, then_arm, else_arm };
        proof {
            assert(vspec == Some(view_cond(h)));
        }
        Ok(h)
    } else {
        // The then arm does not suspend: recover its block from the single
        // segment, which carries the statements unchanged.
        let mut ts = then_segs;
        let seg0 = ts.remove(0);
        proof {
            assert(view_segment(seg0) == split_spec(vthen)[0]);
            assert(view_stmts(seg0.body@) == vthen);
        }
        let then_blk = Block { stmts: seg0.body };
        match else_branch {
            None => {
                let orig = IfExpr { cond, then_branch: then_blk, else_branch: None };
                proof {
                    assert(orig.cond@ == e.cond@);
                    assert(view_block(orig.then_branch) == view_stmts(seg0.body@));
                    assert(view_block(orig.then_branch) == vthen);
                    assert(vif.else_branch is None);
                    assert(view_if(orig).cond == view_if(e).cond);
                    assert(view_if(orig).then_branch == view_if(e).then_branch);
                    assert(view_if(orig).else_branch == view_if(e).else_branch);
                    assert(view_if(orig) == view_if(e));
                }
                Err(orig)
            },
            Some(ElseBranch::Else(b)) => {
                let ghost velse_stmts = view_block(b);
                proof {
                    lemma_split_shape(velse_stmts);
                }
                let else_segs = split_stmts(b.stmts);
                proof {
                    lemma_view_segments(else_segs@);
                }
                if else_segs.len() > 1 {
                    let ret = if unit_value {
                        ChainRet::Unit
                    } else {
                        ChainRet::Value
                    };
                    let h = CondHandle {
                        cond,
                        then_arm: Arm::Ready { body: then_blk, unit_value },
                        else_arm: Arm::Chain(
                            Box::new(build_future_chain(else_segs, ret)),
                        ),
                    };
                    proof {
                        assert(vspec == Some(view_cond(h)));
                    }
                    Ok(h)
                } else {
                    let mut es = else_segs;
                    let eseg0 = es.remove(0);
                    proof {
                        assert(view_segment(eseg0) == split_spec(velse_stmts)[0]);
                        assert(view_stmts(eseg0.body@) == velse_stmts);
                    }
                    let else_blk = Block { stmts: eseg0.body };
                    let ghost ebv = else_blk;
                    let orig = IfExpr {
                        cond,
                        then_branch: then_blk,
                        else_branch: Some(ElseBranch::Else(else_blk)),
                    };
                    proof {
                        assert(view_block(orig.then_branch) == vthen);
                        assert(view_block(ebv) == velse_stmts);
                        assert(orig.else_branch == Some(ElseBranch::Else(ebv)));
                        assert(vif.else_branch == Some(SpecElse::Else(velse_stmts)));
                        assert(view_if(orig).cond == view_if(e).cond);
                        assert(view_if(orig).then_branch == view_if(e).then_branch);
                        assert(view_if(orig).else_branch == view_if(e).else_branch);
                        assert(view_if(orig) == view_if(e));
                    }
                    Err(orig)
                }
            },
            Some(ElseBranch::ElseIf(b2)) => match expr_if_inner(*b2, unit_value) {
                Ok(h2) => {
                    let h = CondHandle {
                        cond,
                        then_arm: Arm::Ready { body: then_blk, unit_value },
                        else_arm: Arm::ElseIf(Box::new(h2)),
                    };
                    proof {
                        assert(vspec == Some(view_cond(h)));
                    }
                    Ok(h)
                },
                Err(orig2) => {
                    let orig = IfExpr {
                        cond,
                        then_branch: then_blk,
                        else_branch: Some(ElseBranch::ElseIf(Box::new(orig2))),
                    };
                    proof {
                        assert(view_block(orig.then_branch) == vthen);
                        assert(vif.else_branch matches Some(SpecElse::ElseIf(bb))
                            && *bb == view_if(orig2));
                        assert(view_if(orig).cond == view_if(e).cond);
                        assert(view_if(orig).then_branch == view_if(e).then_branch);
                        assert(view_if(orig).else_branch == view_if(e).else_branch);
                        assert(view_if(orig) == view_if(e));
                    }
                    Err(orig)
                },
            },
        }
    }
}

/// The Loop Transformer: rewrite a definite loop whose body suspends into
/// a sequential fold threading the accumulator `acc` (or a unit value),
/// or give the loop back unchanged when the body does not suspend.
pub fn expr_for_loop(f: ForExpr, acc: Option<Vec<Token>>) -> (r: Result<LoopFold, ForExpr>)
    ensures
        match r {
            Ok(l) => for_spec(view_for(f), view_tokens_opt(acc)) == Some(view_fold(l)),
            Err(orig) => view_for(orig) == view_for(f) && for_spec(view_for(f), view_tokens_opt(acc))
                is None,
        },
    decreases f,
{
    let ForExpr { pat, iter, body } = f;
    let ghost vbody = view_block(body);
    proof {
        lemma_split_shape(vbody);
    }
    let body_segs = split_stmts(body.stmts);
    proof {
        lemma_view_segments(body_segs@);
    }
    if body_segs.len() > 1 {
        let (ret, acc_out): (ChainRet, Option<Vec<Token>>) = match acc {
            Some(a) => {
                let a2 = copy_tokens(&a);
                (ChainRet::Acc(a2), Some(a))
            },
            None => (ChainRet::Unit, None),
        };
        let chain = build_future_chain(body_segs, ret);
        let l = LoopFold { pat, iter, acc: acc_out, body: Box::new(chain) };
        Ok(l)
    } else {
        let mut bs = body_segs;
        let seg0 = bs.remove(0);
        proof {
            assert(view_segment(seg0) == split_spec(vbody)[0]);
            assert(view_stmts(seg0.body@) == vbody);
        }
        let orig = ForExpr { pat, iter, body: Block { stmts: seg0.body } };
        proof {
            assert(view_for(orig) == view_for(f));
        }
        Err(orig)
    }
}

} // verus!
