//! The stated laws of the transformer, proved against the models.
//!
//! Each public proof function here states one guarantee of the library in
//! full generality; the transformer's executable functions return exactly
//! the models these laws speak about.

use vstd::prelude::*;
use crate::ast::{SpecElse, SpecExpr, SpecIf, SpecFor, SpecStmt, Token};
use crate::ast::{SYM_HANDLER, SYM_HANDLE};
use crate::out::{SpecArm, SpecBind, SpecChain, SpecCond, SpecRet, SpecSegment, SpecTrigger};
use crate::transform::{boundary_spec, empty_segment, for_spec, if_spec, n_bounds, lemma_split_shape, split_spec, split_step};
use crate::chain::assemble_spec;
use crate::handler::{async_handler_inner_spec, ctx_sym_of, handler_chain_spec, item_spec, items_spec, SpecHandler, SpecItem};
use crate::rename::{rename_if_spec, rename_stmt_spec, rename_stmts_spec};

verus! {

/// A statement with no branching or looping construct in trigger position.
pub open spec fn is_flat_stmt(s: SpecStmt) -> bool {
    match s {
        SpecStmt::Expr(SpecExpr::If(_)) => false,
        SpecStmt::Expr(SpecExpr::For(_)) => false,
        SpecStmt::Local { pat, init: Some(SpecExpr::If(_)) } => false,
        SpecStmt::Local { pat, init: Some(SpecExpr::For(_)) } => false,
        SpecStmt::Assign { target, rhs: SpecExpr::If(_) } => false,
        SpecStmt::Assign { target, rhs: SpecExpr::For(_) } => false,
        _ => true,
    }
}

/// A statement sequence with no branching or looping constructs.
pub open spec fn is_flat(ss: Seq<SpecStmt>) -> bool {
    forall|i: int| 0 <= i < ss.len() ==> is_flat_stmt(#[trigger] ss[i])
}

/// A statement that is a suspension trigger: a bare suspension, or a
/// declaration or assignment whose right-hand side suspends.
pub open spec fn is_await_stmt(s: SpecStmt) -> bool {
    match s {
        SpecStmt::Expr(SpecExpr::Await(_)) => true,
        SpecStmt::Local { pat, init: Some(SpecExpr::Await(_)) } => true,
        SpecStmt::Assign { target, rhs: SpecExpr::Await(_) } => true,
        _ => false,
    }
}

/// The number of suspension-trigger statements in a sequence.
pub open spec fn n_awaits(ss: Seq<SpecStmt>) -> nat
    decreases ss.len(),
{
    if ss.len() == 0 {
        0
    } else {
        n_awaits(ss.drop_last()) + (if is_await_stmt(ss.last()) {
            1nat
        } else {
            0nat
        })
    }
}

/// The source statement a future trigger and its following binding stand
/// for (meaningful for flat statements only).
pub open spec fn rebuild(t: SpecTrigger, bind: Option<SpecBind>) -> SpecStmt {
    match (t, bind) {
        (SpecTrigger::Future(base), None) => SpecStmt::Expr(SpecExpr::Await(base)),
        (SpecTrigger::Future(base), Some(SpecBind::Decl(pat))) => SpecStmt::Local {
            pat,
            init: Some(SpecExpr::Await(base)),
        },
        (SpecTrigger::Future(base), Some(SpecBind::Assign(target))) => SpecStmt::Assign {
            target,
            rhs: SpecExpr::Await(base),
        },
        _ => SpecStmt::Opaque(Seq::empty()),
    }
}

/// The binding at the head of segment `i`, if any.
pub open spec fn bind_at(segs: Seq<SpecSegment>, i: int) -> Option<SpecBind> {
    if 0 <= i < segs.len() {
        segs[i].bind
    } else {
        None
    }
}

/// The source statements segment `i` stands for: its own statements, and
/// the statement its trigger was split from, reassembled with the binding
/// that heads the following segment.
pub open spec fn seg_source(segs: Seq<SpecSegment>, i: int) -> Seq<SpecStmt> {
    segs[i].body + (match segs[i].trigger {
        Some(t) => seq![rebuild(t, bind_at(segs, i + 1))],
        None => Seq::empty(),
    })
}

/// The source statements of the first `k` segments, in order.
pub open spec fn reconstruct_prefix(segs: Seq<SpecSegment>, k: int) -> Seq<SpecStmt>
    decreases k,
{
    if k <= 0 {
        Seq::empty()
    } else {
        reconstruct_prefix(segs, k - 1) + seg_source(segs, k - 1)
    }
}

/// The source statements a segment list stands for, with the inserted
/// wrapping (triggers and result bindings) folded back into statements.
pub open spec fn reconstruct(segs: Seq<SpecSegment>) -> Seq<SpecStmt> {
    reconstruct_prefix(segs, segs.len() as int)
}

/// A flat statement is a boundary exactly when it is a suspension trigger,
/// its trigger is always a plain future, and together with its binding it
/// reassembles to the original statement.
pub proof fn lemma_flat_boundary(s: SpecStmt)
    requires
        is_flat_stmt(s),
    ensures
        boundary_spec(s) is Some <==> is_await_stmt(s),
        boundary_spec(s) matches Some((t, b)) ==> rebuild(t, b) == s,
{
    match s {
        SpecStmt::Expr(e) => {},
        SpecStmt::Local { pat, init } => {},
        SpecStmt::Assign { target, rhs } => {},
        SpecStmt::Opaque(toks) => {},
    }
}

/// Two segment lists that agree below `k`, and on the binding at `k`,
/// reconstruct the same prefix.
proof fn lemma_reconstruct_prefix_eq(segs1: Seq<SpecSegment>, segs2: Seq<SpecSegment>, k: int)
    requires
        k <= segs1.len(),
        k <= segs2.len(),
        forall|i: int| 0 <= i < k ==> segs1[i] == segs2[i],
        bind_at(segs1, k) == bind_at(segs2, k),
    ensures
        reconstruct_prefix(segs1, k) == reconstruct_prefix(segs2, k),
    decreases k,
{
    if k > 0 {
        lemma_reconstruct_prefix_eq(segs1, segs2, k - 1);
        assert(seg_source(segs1, k - 1) == seg_source(segs2, k - 1));
    }
}

/// Segmentation of a flat statement sequence loses nothing: folding the
/// inserted wrapping back into statements reproduces the original
/// sequence, statement for statement and in order.
pub proof fn lemma_flat_reconstruct(ss: Seq<SpecStmt>)
    requires
        is_flat(ss),
    ensures
        reconstruct(split_spec(ss)) == ss,
    decreases ss.len(),
{
    let segs = split_spec(ss);
    lemma_split_shape(ss);
    if ss.len() == 0 {
        reveal_with_fuel(reconstruct_prefix, 3);
        assert(segs == seq![empty_segment()]);
        assert(seg_source(segs, 0) =~= Seq::<SpecStmt>::empty());
        assert(reconstruct(segs) =~= ss);
    } else {
        let init = ss.drop_last();
        let s = ss.last();
        assert(is_flat(init)) by {
            assert(forall|i: int|
                0 <= i < init.len() ==> init[i] == #[trigger] ss[i] && is_flat_stmt(ss[i]));
        }
        lemma_flat_reconstruct(init);
        lemma_split_shape(init);
        lemma_flat_boundary(s);
        let prev = split_spec(init);
        let k = prev.len() - 1;
        assert(segs == split_step(prev, s, boundary_spec(s)));
        match boundary_spec(s) {
            None => {
                let updated = SpecSegment {
                    bind: prev[k].bind,
                    body: prev[k].body.push(s),
                    trigger: prev[k].trigger,
                };
                assert(segs == prev.update(k, updated));
                assert(segs.len() == prev.len());
                lemma_reconstruct_prefix_eq(segs, prev, k);
                assert(prev[k].trigger is None);
                assert(seg_source(segs, k) =~= seg_source(prev, k).push(s));
                assert(reconstruct(segs) == reconstruct_prefix(segs, k) + seg_source(segs, k));
                assert(reconstruct(prev) == reconstruct_prefix(prev, k) + seg_source(prev, k));
                assert(reconstruct(segs) =~= reconstruct(prev).push(s));
                assert(init.push(s) =~= ss);
            },
            Some((t, b)) => {
                reveal_with_fuel(reconstruct_prefix, 3);
                let closed = SpecSegment {
                    bind: prev[k].bind,
                    body: prev[k].body,
                    trigger: Some(t),
                };
                let opened = SpecSegment { bind: b, body: Seq::empty(), trigger: None };
                assert(segs == prev.update(k, closed).push(opened));
                assert(segs.len() == prev.len() + 1);
                lemma_reconstruct_prefix_eq(segs, prev, k);
                assert(rebuild(t, b) == s);
                assert(bind_at(segs, k + 1) == b);
                assert(seg_source(segs, k) =~= prev[k].body.push(s));
                assert(prev[k].trigger is None);
                assert(seg_source(prev, k) =~= prev[k].body);
                assert(seg_source(segs, k + 1) =~= Seq::<SpecStmt>::empty());
                assert(reconstruct(segs) == reconstruct_prefix(segs, k) + seg_source(segs, k) +
                    seg_source(segs, k + 1));
                assert(reconstruct(prev) == reconstruct_prefix(prev, k) + seg_source(prev, k));
                assert(reconstruct(segs) =~= reconstruct(prev).push(s));
                assert(init.push(s) =~= ss);
            },
        }
    }
}

/// In a flat statement sequence every boundary is a suspension trigger, so
/// a flat sequence with `n` triggers splits into exactly `n + 1` segments.
pub proof fn lemma_flat_count(ss: Seq<SpecStmt>)
    requires
        is_flat(ss),
    ensures
        n_bounds(ss) == n_awaits(ss),
        split_spec(ss).len() == n_awaits(ss) + 1,
    decreases ss.len(),
{
    lemma_split_shape(ss);
    if ss.len() > 0 {
        assert(is_flat(ss.drop_last())) by {
            assert(forall|i: int|
                0 <= i < ss.len() - 1 ==> ss.drop_last()[i] == #[trigger] ss[i] && is_flat_stmt(
                    ss[i],
                ));
        }
        lemma_flat_count(ss.drop_last());
        lemma_flat_boundary(ss.last());
    }
}

/// A conditional neither of whose arms suspends is not transformed, and
/// the enclosing Segmenter keeps the whole conditional as one opaque
/// statement of the current segment.
pub proof fn lemma_cond_no_transform(e: SpecIf, unit_value: bool)
    requires
        split_spec(e.then_branch).len() <= 1,
        match e.else_branch {
            None => true,
            Some(SpecElse::Else(b)) => split_spec(b).len() <= 1,
            Some(SpecElse::ElseIf(b2)) => if_spec(*b2, unit_value) is None,
        },
    ensures
        if_spec(e, unit_value) is None,
        boundary_spec(SpecStmt::Expr(SpecExpr::If(Box::new(e)))) is None,
{
    match e.else_branch {
        Some(SpecElse::ElseIf(b2)) => {
            lemma_if_none_any_mode(*b2);
        },
        _ => {},
    }
    lemma_if_none_any_mode(e);
}

/// Whether a conditional needs no transformation does not depend on the
/// position it stands in: only the arms' segment counts decide.
proof fn lemma_if_none_any_mode(e: SpecIf)
    ensures
        if_spec(e, true) is None <==> if_spec(e, false) is None,
    decreases e,
{
    match e.else_branch {
        Some(SpecElse::ElseIf(b2)) => {
            lemma_if_none_any_mode(*b2);
        },
        _ => {},
    }
}

/// The plain else block of a conditional, where it has one.
pub open spec fn else_block_of(el: Option<SpecElse>) -> Seq<SpecStmt> {
    match el {
        Some(SpecElse::Else(b)) => b,
        _ => Seq::empty(),
    }
}

/// When exactly one arm of a conditional suspends, the suspending arm
/// becomes its own sub-chain and the non-suspending arm is wrapped as an
/// already-ready handle of the same shape; a missing else arm becomes an
/// already-ready unit handle.
pub proof fn lemma_cond_one_arm(e: SpecIf, unit_value: bool)
    ensures
        ({
            &&& split_spec(e.then_branch).len() > 1
            &&& e.else_branch matches Some(SpecElse::Else(b))
            &&& split_spec(b).len() <= 1
        }) ==> if_spec(e, unit_value) == Some(
            SpecCond {
                cond: e.cond,
                then_arm: SpecArm::Chain(
                    Box::new(
                        assemble_spec(
                            split_spec(e.then_branch),
                            if unit_value {
                                SpecRet::Unit
                            } else {
                                SpecRet::Value
                            },
                        ),
                    ),
                ),
                else_arm: SpecArm::Ready {
                    body: else_block_of(e.else_branch),
                    unit_value,
                },
            },
        ),
        ({
            &&& split_spec(e.then_branch).len() > 1
            &&& e.else_branch is None
        }) ==> if_spec(e, unit_value) == Some(
            SpecCond {
                cond: e.cond,
                then_arm: SpecArm::Chain(
                    Box::new(
                        assemble_spec(
                            split_spec(e.then_branch),
                            if unit_value {
                                SpecRet::Unit
                            } else {
                                SpecRet::Value
                            },
                        ),
                    ),
                ),
                else_arm: SpecArm::ReadyUnit,
            },
        ),
        ({
            &&& split_spec(e.then_branch).len() <= 1
            &&& e.else_branch matches Some(SpecElse::Else(b))
            &&& split_spec(b).len() > 1
        }) ==> if_spec(e, unit_value) == Some(
            SpecCond {
                cond: e.cond,
                then_arm: SpecArm::Ready { body: e.then_branch, unit_value },
                else_arm: SpecArm::Chain(
                    Box::new(
                        assemble_spec(
                            split_spec(else_block_of(e.else_branch)),
                            if unit_value {
                                SpecRet::Unit
                            } else {
                                SpecRet::Value
                            },
                        ),
                    ),
                ),
            },
        ),
{
}

/// The number of steps of a chain (its segments, counted right-to-left).
pub open spec fn chain_len(c: SpecChain) -> nat
    decreases c,
{
    match c {
        SpecChain::Done => 1,
        SpecChain::Last { bind, body, ret } => 1,
        SpecChain::Step { bind, body, trigger, rest } => 1 + chain_len(*rest),
    }
}

/// Assembling `n` segments yields a chain of exactly `n` steps.
pub proof fn lemma_assemble_len(segs: Seq<SpecSegment>, ret: SpecRet)
    requires
        segs.len() >= 1,
        forall|i: int| 0 <= i < segs.len() - 1 ==> (#[trigger] segs[i]).trigger is Some,
    ensures
        chain_len(assemble_spec(segs, ret)) == segs.len(),
    decreases segs.len(),
{
    if segs.len() > 1 {
        let rest = segs.drop_first();
        assert(forall|i: int|
            0 <= i < rest.len() - 1 ==> rest[i] == #[trigger] segs[i + 1] && segs[i + 1].trigger
                is Some);
        lemma_assemble_len(rest, ret);
    }
}

/// The suspensions a chain starts, in the order its steps run.
pub open spec fn chain_triggers(c: SpecChain) -> Seq<SpecTrigger>
    decreases c,
{
    match c {
        SpecChain::Done => Seq::empty(),
        SpecChain::Last { bind, body, ret } => Seq::empty(),
        SpecChain::Step { bind, body, trigger, rest } => seq![trigger] + chain_triggers(*rest),
    }
}

/// The triggers of a segment list's non-final segments, in order.
pub open spec fn seg_triggers(segs: Seq<SpecSegment>) -> Seq<SpecTrigger>
    decreases segs.len(),
{
    if segs.len() <= 1 {
        Seq::empty()
    } else {
        (match segs[0].trigger {
            Some(t) => seq![t],
            None => Seq::empty(),
        }) + seg_triggers(segs.drop_first())
    }
}

/// The assembled chain starts exactly its segments' suspensions, in the
/// segments' own order: composition reorders nothing.
pub proof fn lemma_chain_order(segs: Seq<SpecSegment>, ret: SpecRet)
    requires
        segs.len() >= 1,
        forall|i: int| 0 <= i < segs.len() - 1 ==> (#[trigger] segs[i]).trigger is Some,
    ensures
        chain_triggers(assemble_spec(segs, ret)) == seg_triggers(segs),
    decreases segs.len(),
{
    if segs.len() > 1 {
        let rest = segs.drop_first();
        assert(forall|i: int|
            0 <= i < rest.len() - 1 ==> rest[i] == #[trigger] segs[i + 1] && segs[i + 1].trigger
                is Some);
        lemma_chain_order(rest, ret);
    }
}

/// A definite loop is rewritten exactly when its body's segmentation has
/// more than one segment.  The rewrite is a fold over the loop's own
/// iterable that threads the given accumulator (or a unit value) through
/// one sub-chain per iteration; the sub-chain has one step per body
/// segment and its final step yields the accumulator.
pub proof fn lemma_loop_fold(f: SpecFor, acc: Option<Seq<Token>>)
    ensures
        for_spec(f, acc) is Some <==> split_spec(f.body).len() > 1,
        for_spec(f, acc) matches Some(l) ==> {
            &&& l.pat == f.pat
            &&& l.iter == f.iter
            &&& l.acc == acc
            &&& *l.body == assemble_spec(
                split_spec(f.body),
                match acc {
                    Some(a) => SpecRet::Acc(a),
                    None => SpecRet::Unit,
                },
            )
            &&& chain_len(*l.body) == n_bounds(f.body) + 1
        },
{
    lemma_split_shape(f.body);
    if split_spec(f.body).len() > 1 {
        lemma_assemble_len(
            split_spec(f.body),
            match acc {
                Some(a) => SpecRet::Acc(a),
                None => SpecRet::Unit,
            },
        );
    }
}

/// The binder rename changes no statement's role: a renamed statement is a
/// segmentation boundary exactly when the original is.
proof fn lemma_rename_boundary(s: SpecStmt, ctx: u32)
    ensures
        boundary_spec(rename_stmt_spec(s, ctx)) is Some <==> boundary_spec(s) is Some,
    decreases s,
{
    match s {
        SpecStmt::Expr(e) => {
            lemma_rename_boundary_expr(e, true, ctx);
        },
        SpecStmt::Local { pat, init: Some(e) } => {
            lemma_rename_boundary_expr(e, false, ctx);
        },
        SpecStmt::Assign { target, rhs } => {
            lemma_rename_boundary_expr(rhs, false, ctx);
        },
        _ => {},
    }
}

/// The rename preserves whether an expression splits the block in its
/// position (`unit_value` says whether it stands as a plain statement).
proof fn lemma_rename_boundary_expr(e: SpecExpr, unit_value: bool, ctx: u32)
    ensures
        match e {
            SpecExpr::If(b) => if_spec(crate::rename::rename_if_spec(*b, ctx), unit_value)
                is Some <==> if_spec(*b, unit_value) is Some,
            SpecExpr::For(f) => split_spec(crate::rename::rename_for_spec(*f, ctx).body).len()
                == split_spec(f.body).len(),
            _ => true,
        },
    decreases e,
{
    match e {
        SpecExpr::If(b) => {
            lemma_rename_if_needs(*b, unit_value, ctx);
        },
        SpecExpr::For(f) => {
            lemma_rename_bounds(f.body, ctx);
            lemma_split_shape(f.body);
            lemma_split_shape(rename_stmts_spec(f.body, ctx));
        },
        _ => {},
    }
}

/// The rename preserves whether a conditional needs transformation.
proof fn lemma_rename_if_needs(e: SpecIf, unit_value: bool, ctx: u32)
    ensures
        if_spec(crate::rename::rename_if_spec(e, ctx), unit_value) is Some <==> if_spec(
            e,
            unit_value,
        ) is Some,
    decreases e,
{
    lemma_rename_bounds(e.then_branch, ctx);
    lemma_split_shape(e.then_branch);
    lemma_split_shape(rename_stmts_spec(e.then_branch, ctx));
    match e.else_branch {
        Some(SpecElse::Else(b)) => {
            lemma_rename_bounds(b, ctx);
            lemma_split_shape(b);
            lemma_split_shape(rename_stmts_spec(b, ctx));
        },
        Some(SpecElse::ElseIf(b2)) => {
            lemma_rename_if_needs(*b2, unit_value, ctx);
        },
        None => {},
    }
}

/// The rename moves no segmentation boundary: the renamed sequence has
/// exactly the boundaries of the original.
proof fn lemma_rename_bounds(ss: Seq<SpecStmt>, ctx: u32)
    ensures
        n_bounds(rename_stmts_spec(ss, ctx)) == n_bounds(ss),
    decreases ss,
{
    if ss.len() > 0 {
        lemma_rename_bounds(ss.drop_last(), ctx);
        lemma_rename_boundary(ss.last(), ctx);
        let renamed = rename_stmts_spec(ss, ctx);
        assert(renamed.drop_last() =~= rename_stmts_spec(ss.drop_last(), ctx));
        assert(renamed.last() == rename_stmt_spec(ss.last(), ctx));
    }
}

/// A rewritten handler method's chain has one step per segment of its
/// body: a body with `n` suspension boundaries — counted on the original
/// statements, before the binder rename — yields a chain of exactly
/// `n + 1` steps, run strictly in source order.
pub proof fn lemma_handler_chain_steps(body: Seq<SpecStmt>, ctx: u32)
    ensures
        chain_len(handler_chain_spec(body, ctx)) == n_bounds(body) + 1,
{
    let renamed = rename_stmts_spec(body, ctx);
    lemma_rename_bounds(body, ctx);
    lemma_split_shape(renamed);
    lemma_assemble_len(split_spec(renamed), SpecRet::Value);
}

/// An impl item the Entry Point accepts: anything but a handler method
/// without a usable context parameter.
pub open spec fn item_ok(it: SpecItem) -> bool {
    match it {
        SpecItem::Method { loc, name, sig, body } => name == SYM_HANDLE ==> ctx_sym_of(sig)
            is Some,
        _ => true,
    }
}

/// A rewrite target that passes structural validation: it implements the
/// message-handler trait, and every handler method declares a context
/// parameter.
pub open spec fn valid_handler(h: SpecHandler) -> bool {
    &&& h.trait_name == Some(SYM_HANDLER)
    &&& forall|i: int| 0 <= i < h.items.len() ==> item_ok(#[trigger] h.items[i])
}

/// Rewriting an item list succeeds exactly when every item is acceptable.
proof fn lemma_items_total(mode: crate::out::Mode, its: Seq<SpecItem>)
    ensures
        items_spec(mode, its) is Ok <==> forall|i: int|
            0 <= i < its.len() ==> item_ok(#[trigger] its[i]),
    decreases its.len(),
{
    if its.len() > 0 {
        lemma_items_total(mode, its.drop_last());
        assert(item_spec(mode, its.last()) is Ok <==> item_ok(its.last()));
        if items_spec(mode, its) is Ok {
            assert(forall|i: int|
                0 <= i < its.len() - 1 ==> its.drop_last()[i] == #[trigger] its[i]);
        } else {
            if forall|i: int| 0 <= i < its.len() ==> item_ok(#[trigger] its[i]) {
                assert(forall|i: int|
                    0 <= i < its.drop_last().len() ==> item_ok(#[trigger] its.drop_last()[i]))
                    by {
                    assert(forall|i: int|
                        0 <= i < its.len() - 1 ==> its.drop_last()[i] == #[trigger] its[i]);
                }
                assert(item_ok(its.last()));
                assert(false);
            }
        }
    }
}

/// The round-trip guarantee of the Entry Point: the rewrite succeeds — and
/// produces a structurally well-formed output tree, re-emittable as valid
/// syntax — exactly for the targets that pass structural validation; on
/// every other target it fails with an error and produces no output.
pub proof fn lemma_entry_total(is_atomic: bool, h: SpecHandler)
    ensures
        async_handler_inner_spec(is_atomic, h) is Ok <==> valid_handler(h),
{
    let mode = if is_atomic {
        crate::out::Mode::Atomic
    } else {
        crate::out::Mode::NonAtomic
    };
    if h.trait_name == Some(SYM_HANDLER) {
        lemma_items_total(mode, h.items);
    }
}

} // verus!
