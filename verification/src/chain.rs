//! The Chain Assembler: folds an ordered segment list, right to left, into
//! one right-nested continuation expression.

use vstd::prelude::*;
use crate::out::{Chain, ChainRet, Segment, SpecChain, SpecRet, SpecSegment};
use crate::out::{lemma_view_segments, view_chain, view_ret, view_segment, view_segments};

verus! {

/// The final step of a chain, made from the final segment of a block.
///
/// With a forced return value the segment always becomes a map step; with
/// the block's own trailing value an entirely empty final segment needs no
/// step at all: the preceding trigger's handle is the chain's result.
pub open spec fn tail_spec(seg: SpecSegment, ret: SpecRet) -> SpecChain {
    match ret {
        SpecRet::Value => {
            if seg.bind is None && seg.body.len() == 0 {
                SpecChain::Done
            } else {
                SpecChain::Last { bind: seg.bind, body: seg.body, ret: SpecRet::Value }
            }
        },
        _ => SpecChain::Last { bind: seg.bind, body: seg.body, ret: ret },
    }
}

/// The Chain Assembler's model: every non-final segment becomes a step that
/// runs its statements, starts its trigger and passes the trigger's result
/// on to the rest of the chain; the final segment becomes the tail step.
pub open spec fn assemble_spec(segs: Seq<SpecSegment>, ret: SpecRet) -> SpecChain
    decreases segs.len(),
{
    if segs.len() == 0 {
        // Never arises: the Segmenter yields at least one segment per block.
        SpecChain::Done
    } else if segs.len() == 1 {
        tail_spec(segs[0], ret)
    } else {
        match segs[0].trigger {
            Some(t) => SpecChain::Step {
                bind: segs[0].bind,
                body: segs[0].body,
                trigger: t,
                rest: Box::new(assemble_spec(segs.drop_first(), ret)),
            },
            // A non-final segment always carries a trigger; this arm never
            // arises from the Segmenter's output.
            None => SpecChain::Done,
        }
    }
}

/// Fold a block's segments into the single continuation chain that the
/// rewritten code evaluates, with `ret` selecting what the final map step
/// yields.
pub fn build_future_chain(segs: Vec<Segment>, ret: ChainRet) -> (c: Chain)
    requires
        segs@.len() >= 1,
    ensures
        view_chain(c) == assemble_spec(view_segments(segs@), view_ret(ret)),
{
    let ghost all = segs@;
    let ghost rv = view_ret(ret);
    proof {
        lemma_view_segments(all);
    }
    let mut rest = segs;
    let last = rest.pop().unwrap();
    let is_empty_tail = match &ret {
        ChainRet::Value => last.bind.is_none() && last.body.len() == 0,
        _ => false,
    };
    let mut c: Chain = if is_empty_tail {
        Chain::Done
    } else {
        Chain::Last { bind: last.bind, body: last.body, ret: ret }
    };
    proof {
        assert(view_segments(all)[all.len() - 1] == view_segment(last));
        assert(view_segments(all.subrange(all.len() - 1, all.len() as int)) =~= seq![
            view_segment(last),
        ]) by {
            lemma_view_segments(all.subrange(all.len() - 1, all.len() as int));
        }
        assert(view_chain(c) == tail_spec(view_segment(last), rv));
    }
    let ghost mut i: int = all.len() - 1;
    while rest.len() > 0
        invariant
            0 <= i <= all.len() - 1,
            rest@ == all.subrange(0, i),
            view_chain(c) == assemble_spec(view_segments(all.subrange(i, all.len() as int)), rv),
        decreases rest@.len(),
    {
        let seg = rest.pop().unwrap();
        proof {
            assert(all.subrange(0, i).len() == i);
            assert(seg == all.subrange(0, i)[i - 1]);
            assert(seg == all[i - 1]);
            assert(rest@ =~= all.subrange(0, i - 1));
            i = i - 1;
        }
        c = match seg.trigger {
            Some(t) => Chain::Step {
                bind: seg.bind,
                body: seg.body,
                trigger: t,
                rest: Box::new(c),
            },
            None => Chain::Done,
        };
        proof {
            let s_cur = view_segments(all.subrange(i, all.len() as int));
            let s_next = view_segments(all.subrange(i + 1, all.len() as int));
            lemma_view_segments(all.subrange(i, all.len() as int));
            lemma_view_segments(all.subrange(i + 1, all.len() as int));
            assert(all.subrange(i, all.len() as int)[0] == all[i]);
            assert(seg == all[i]);
            assert(s_cur.len() >= 2);
            assert(s_cur[0] == view_segment(seg));
            assert(s_cur.drop_first() =~= s_next) by {
                assert forall|j: int| 0 <= j < s_next.len() implies s_cur.drop_first()[j]
                    == s_next[j] by {
                    assert(all.subrange(i, all.len() as int)[j + 1] == all[i + 1 + j]);
                    assert(all.subrange(i + 1, all.len() as int)[j] == all[i + 1 + j]);
                }
            }
            assert(view_chain(c) == assemble_spec(s_cur, rv));
        }
    }
    proof {
        assert(all.subrange(0, i).len() == i);
        assert(i == 0);
        assert(all.subrange(0, all.len() as int) =~= all);
    }
    c
}

} // verus!
