//! The Entry Point: validate the rewrite target, drive the rename, the
//! Segmenter and the Chain Assembler, and rewrite the declared result type
//! and the handler method.
//!
//! The embedder parses the host-language impl block into [`HandlerImpl`]
//! and re-emits the returned [`RewrittenImpl`]; both carry opaque token
//! runs for everything the transformer does not inspect.

use vstd::prelude::*;
use crate::ast::{Block, SpecStmt, Token};
use crate::ast::{SYM_ATOMIC_RESPONSE, SYM_HANDLE, SYM_HANDLER, SYM_NON_ATOMIC, SYM_RESPONSE_ACT_FUTURE, SYM_RESULT};
use crate::ast::view_block;
use crate::out::{Chain, ChainRet, Mode, SpecChain, SpecRet};
use crate::out::{view_chain};
use crate::rename::{fold_stmts, rename_stmts_spec};
use crate::transform::{split_awaits, split_spec};
use crate::chain::{assemble_spec, build_future_chain};

verus! {

/// The pattern of one declared (non-receiver) method parameter.
#[derive(Debug, PartialEq, Eq)]
pub enum ParamPat {
    /// A plain identifier pattern, as an interned symbol.
    Ident(u32),
    /// Any other pattern, passed through verbatim.
    Opaque(Vec<Token>),
}

/// The parts of a method signature the transformer inspects: whether the
/// method carries the suspend qualifier, and its declared parameter
/// patterns in order (the receiver excluded).
#[derive(Debug, PartialEq, Eq)]
pub struct MethodSig {
    pub is_async: bool,
    pub params: Vec<ParamPat>,
}

/// One item of the trait implementation being rewritten.
#[derive(Debug, PartialEq, Eq)]
pub enum ImplItem {
    /// An associated type declaration `type name = ty;`.
    AssocType { loc: u32, name: u32, ty: Vec<Token> },
    /// A method with its signature and body.
    Method { loc: u32, name: u32, sig: MethodSig, body: Block },
    /// Any other item, passed through verbatim.
    Opaque(Vec<Token>),
}

/// The rewrite target: one trait implementation block.  `loc` is an opaque
/// source location handle supplied by the embedder, used in errors.
#[derive(Debug, PartialEq, Eq)]
pub struct HandlerImpl {
    pub loc: u32,
    /// The first path segment of the implemented trait, if the impl names
    /// a trait at all.
    pub trait_name: Option<u32>,
    pub items: Vec<ImplItem>,
}

/// One item of the rewritten implementation.
#[derive(Debug, PartialEq, Eq)]
pub enum OutItem {
    /// The declared result type, wrapped in the deferred-computation type
    /// of the selected mode: `type name = Wrapper<Self, inner>;`.
    WrappedType { loc: u32, name: u32, mode: Mode, inner: Vec<Token> },
    /// The rewritten handler method: the suspend qualifier is gone, the
    /// result type is the declared associated type, and the body is the
    /// assembled chain wrapped in the mode's deferred-computation handle.
    ChainMethod { loc: u32, name: u32, mode: Mode, chain: Chain },
    /// An item carried over unchanged.
    Passthrough(ImplItem),
}

/// The rewritten trait implementation block.
#[derive(Debug, PartialEq, Eq)]
pub struct RewrittenImpl {
    pub loc: u32,
    pub trait_name: Option<u32>,
    pub items: Vec<OutItem>,
}

/// An error of the rewrite, carrying the location it is reported at.
#[derive(Debug, Clone, Copy, PartialEq, Eq)]
pub enum TransformError {
    /// The configuration token is not recognized.
    Config { loc: u32 },
    /// The rewrite target is not an implementation of the message-handler
    /// trait.
    NotHandler { loc: u32 },
    /// The handler method does not declare a usable context parameter
    /// after the message parameter.
    MissingContext { loc: u32 },
    /// A rewritten tree failed to re-emit as valid syntax.  The transformer
    /// itself never produces this; the embedder reports it if its own
    /// re-parse of the emitted text fails.
    Consistency { loc: u32 },
}

/// The mathematical model of a [`ParamPat`].
pub enum SpecParam {
    Ident(u32),
    Opaque(Seq<Token>),
}

/// The mathematical model of a [`MethodSig`].
pub struct SpecSig {
    pub is_async: bool,
    pub params: Seq<SpecParam>,
}

/// The mathematical model of an [`ImplItem`].
pub enum SpecItem {
    AssocType { loc: u32, name: u32, ty: Seq<Token> },
    Method { loc: u32, name: u32, sig: SpecSig, body: Seq<SpecStmt> },
    Opaque(Seq<Token>),
}

/// The mathematical model of a [`HandlerImpl`].
pub struct SpecHandler {
    pub loc: u32,
    pub trait_name: Option<u32>,
    pub items: Seq<SpecItem>,
}

/// The mathematical model of an [`OutItem`].
pub enum SpecOutItem {
    WrappedType { loc: u32, name: u32, mode: Mode, inner: Seq<Token> },
    ChainMethod { loc: u32, name: u32, mode: Mode, chain: SpecChain },
    Passthrough(SpecItem),
}

/// The mathematical model of a [`RewrittenImpl`].
pub struct SpecRewritten {
    pub loc: u32,
    pub trait_name: Option<u32>,
    pub items: Seq<SpecOutItem>,
}

/// The model of a parameter pattern.
pub open spec fn view_param(p: ParamPat) -> SpecParam {
    match p {
        ParamPat::Ident(sym) => SpecParam::Ident(sym),
        ParamPat::Opaque(toks) => SpecParam::Opaque(toks@),
    }
}

/// The model of a parameter list, element by element.
pub open spec fn view_params(ps: Seq<ParamPat>) -> Seq<SpecParam> {
    Seq::new(ps.len(), |i: int| view_param(ps[i]))
}

/// The model of a method signature.
pub open spec fn view_sig(s: MethodSig) -> SpecSig {
    SpecSig { is_async: s.is_async, params: view_params(s.params@) }
}

/// The model of an impl item.
pub open spec fn view_item(it: ImplItem) -> SpecItem {
    match it {
        ImplItem::AssocType { loc, name, ty } => SpecItem::AssocType { loc, name, ty: ty@ },
        ImplItem::Method { loc, name, sig, body } => SpecItem::Method {
            loc,
            name,
            sig: view_sig(sig),
            body: view_block(body),
        },
        ImplItem::Opaque(toks) => SpecItem::Opaque(toks@),
    }
}

/// The model of an item list, element by element.
pub open spec fn view_items(its: Seq<ImplItem>) -> Seq<SpecItem> {
    Seq::new(its.len(), |i: int| view_item(its[i]))
}

/// The model of the rewrite target.
pub open spec fn view_handler(h: HandlerImpl) -> SpecHandler {
    SpecHandler { loc: h.loc, trait_name: h.trait_name, items: view_items(h.items@) }
}

/// The model of a rewritten item.
pub open spec fn view_out_item(it: OutItem) -> SpecOutItem {
    match it {
        OutItem::WrappedType { loc, name, mode, inner } => SpecOutItem::WrappedType {
            loc,
            name,
            mode,
            inner: inner@,
        },
        OutItem::ChainMethod { loc, name, mode, chain } => SpecOutItem::ChainMethod {
            loc,
            name,
            mode,
            chain: view_chain(chain),
        },
        OutItem::Passthrough(it) => SpecOutItem::Passthrough(view_item(it)),
    }
}

/// The model of a rewritten item list, element by element.
pub open spec fn view_out_items(its: Seq<OutItem>) -> Seq<SpecOutItem> {
    Seq::new(its.len(), |i: int| view_out_item(its[i]))
}

/// The model of the rewritten implementation.
pub open spec fn view_rewritten(r: RewrittenImpl) -> SpecRewritten {
    SpecRewritten { loc: r.loc, trait_name: r.trait_name, items: view_out_items(r.items@) }
}

/// The interned name of the deferred-computation wrapper for a mode.
pub open spec fn result_type_sym(is_atomic: bool) -> u32 {
    if is_atomic {
        SYM_ATOMIC_RESPONSE
    } else {
        SYM_RESPONSE_ACT_FUTURE
    }
}

/// The context parameter's symbol: the declared parameter list must end in
/// a plain-identifier parameter after the message parameter.
pub open spec fn ctx_sym_of(sig: SpecSig) -> Option<u32> {
    if sig.params.len() == 0 {
        None
    } else {
        match sig.params.last() {
            SpecParam::Ident(sym) => Some(sym),
            SpecParam::Opaque(_) => None,
        }
    }
}

/// The chain a handler body is rewritten into: binders renamed, the body
/// segmented at its suspension points, and the segments folded into one
/// continuation chain that maps the block's trailing value.
pub open spec fn handler_chain_spec(body: Seq<SpecStmt>, ctx: u32) -> SpecChain {
    assemble_spec(split_spec(rename_stmts_spec(body, ctx)), SpecRet::Value)
}

/// The rewrite of one impl item: the `Result` associated type is wrapped,
/// the `handle` method becomes a chain method, everything else passes
/// through.
pub open spec fn item_spec(mode: Mode, it: SpecItem) -> Result<SpecOutItem, TransformError> {
    match it {
        SpecItem::AssocType { loc, name, ty } => {
            if name == SYM_RESULT {
                Ok(SpecOutItem::WrappedType { loc, name, mode, inner: ty })
            } else {
                Ok(SpecOutItem::Passthrough(it))
            }
        },
        SpecItem::Method { loc, name, sig, body } => {
            if name == SYM_HANDLE {
                match ctx_sym_of(sig) {
                    None => Err(TransformError::MissingContext { loc }),
                    Some(ctx) => Ok(
                        SpecOutItem::ChainMethod {
                            loc,
                            name,
                            mode,
                            chain: handler_chain_spec(body, ctx),
                        },
                    ),
                }
            } else {
                Ok(SpecOutItem::Passthrough(it))
            }
        },
        SpecItem::Opaque(_) => Ok(SpecOutItem::Passthrough(it)),
    }
}

/// The rewrite of an item list, stopping at the first failing item.
pub open spec fn items_spec(mode: Mode, its: Seq<SpecItem>) -> Result<
    Seq<SpecOutItem>,
    TransformError,
>
    decreases its.len(),
{
    if its.len() == 0 {
        Ok(Seq::empty())
    } else {
        match items_spec(mode, its.drop_last()) {
            Err(e) => Err(e),
            Ok(done) => match item_spec(mode, its.last()) {
                Err(e) => Err(e),
                Ok(o) => Ok(done.push(o)),
            },
        }
    }
}

/// The whole rewrite: the target must implement the message-handler trait;
/// then each item is rewritten in order.
pub open spec fn async_handler_inner_spec(is_atomic: bool, input: SpecHandler) -> Result<
    SpecRewritten,
    TransformError,
> {
    if input.trait_name != Some(SYM_HANDLER) {
        Err(TransformError::NotHandler { loc: input.loc })
    } else {
        let mode = if is_atomic {
            Mode::Atomic
        } else {
            Mode::NonAtomic
        };
        match items_spec(mode, input.items) {
            Err(e) => Err(e),
            Ok(items) => Ok(
                SpecRewritten { loc: input.loc, trait_name: input.trait_name, items },
            ),
        }
    }
}

/// The rewrite behind the attribute: the configuration token selects the
/// mode.  An empty token run selects atomic mode; the single recognized
/// flag selects non-atomic mode; anything else is a configuration error,
/// reported before any tree processing.
pub open spec fn async_handler_impl_spec(
    attr: Seq<Token>,
    attr_loc: u32,
    input: SpecHandler,
) -> Result<SpecRewritten, TransformError> {
    if attr.len() == 0 {
        async_handler_inner_spec(true, input)
    } else if attr.len() == 1 && attr[0] == Token::Ident(SYM_NON_ATOMIC) {
        async_handler_inner_spec(false, input)
    } else {
        Err(TransformError::Config { loc: attr_loc })
    }
}

/// The interned name of the deferred-computation wrapper the rewrite emits.
pub fn result_type_ident(is_atomic: bool) -> (r: u32)
    ensures
        r == result_type_sym(is_atomic),
{
    if is_atomic {
        SYM_ATOMIC_RESPONSE
    } else {
        SYM_RESPONSE_ACT_FUTURE
    }
}

/// Wrap the declared result type in the deferred-computation type of the
/// selected mode.
pub fn process_result_type(mode: Mode, loc: u32, name: u32, ty: Vec<Token>) -> (r: OutItem)
    ensures
        view_out_item(r) == (SpecOutItem::WrappedType {
            loc,
            name,
            mode,
            inner: ty@,
        }),
{
    OutItem::WrappedType { loc, name, mode, inner: ty }
}

/// Rewrite the handler method: find the context parameter, rename the two
/// reserved binders, segment the body and assemble the chain.
pub fn process_handler_fn(mode: Mode, loc: u32, name: u32, sig: MethodSig, body: Block) -> (r:
    Result<OutItem, TransformError>)
    ensures
        match r {
            Ok(o) => ctx_sym_of(view_sig(sig)) matches Some(ctx) && view_out_item(o)
                == (SpecOutItem::ChainMethod {
                loc,
                name,
                mode,
                chain: handler_chain_spec(view_block(body), ctx),
            }),
            Err(e) => e == (TransformError::MissingContext { loc }) && ctx_sym_of(view_sig(sig))
                is None,
        },
{
    let mut params = sig.params;
    let ghost vparams = view_params(params@);
    if params.len() == 0 {
        proof {
            assert(vparams.len() == 0);
        }
        return Err(TransformError::MissingContext { loc });
    }
    let last = params.pop().unwrap();
    proof {
        assert(vparams.last() == view_param(last));
    }
    let ctx: u32 = match last {
        ParamPat::Ident(sym) => sym,
        ParamPat::Opaque(_) => {
            return Err(TransformError::MissingContext { loc });
        },
    };
    let renamed = fold_stmts(body.stmts, ctx);
    let segs = split_awaits(Block { stmts: renamed });
    let chain = build_future_chain(segs, ChainRet::Value);
    Ok(OutItem::ChainMethod { loc, name, mode, chain })
}

/// Rewrite one impl item.
fn process_item(mode: Mode, it: ImplItem) -> (r: Result<OutItem, TransformError>)
    ensures
        match r {
            Ok(o) => item_spec(mode, view_item(it)) == Ok::<SpecOutItem, TransformError>(
                view_out_item(o),
            ),
            Err(e) => item_spec(mode, view_item(it)) == Err::<SpecOutItem, TransformError>(e),
        },
{
    match it {
        ImplItem::AssocType { loc, name, ty } => {
            if name == SYM_RESULT {
                Ok(process_result_type(mode, loc, name, ty))
            } else {
                Ok(OutItem::Passthrough(ImplItem::AssocType { loc, name, ty }))
            }
        },
        ImplItem::Method { loc, name, sig, body } => {
            if name == SYM_HANDLE {
                match process_handler_fn(mode, loc, name, sig, body) {
                    Ok(o) => Ok(o),
                    Err(e) => Err(e),
                }
            } else {
                Ok(OutItem::Passthrough(ImplItem::Method { loc, name, sig, body }))
            }
        },
        ImplItem::Opaque(toks) => Ok(OutItem::Passthrough(ImplItem::Opaque(toks))),
    }
}

/// Rewrite an item list, stopping at the first failing item.
fn process_items(mode: Mode, items: Vec<ImplItem>) -> (r: Result<Vec<OutItem>, TransformError>)
    ensures
        match r {
            Ok(out) => items_spec(mode, view_items(items@)) == Ok::<_, TransformError>(
                view_out_items(out@),
            ),
            Err(e) => items_spec(mode, view_items(items@)) == Err::<Seq<SpecOutItem>, _>(e),
        },
    decreases items@,
{
    let ghost vits = view_items(items@);
    let mut rest = items;
    if rest.len() == 0 {
        let out: Vec<OutItem> = Vec::new();
        proof {
            assert(vits.len() == 0);
            assert(view_out_items(out@) =~= Seq::<SpecOutItem>::empty());
        }
        return Ok(out);
    }
    let it = rest.pop().unwrap();
    proof {
        assert(rest@ == items@.drop_last());
        assert(vits.drop_last() =~= view_items(rest@));
        assert(vits.last() == view_item(it));
        assert(vits.len() > 0);
    }
    let done = match process_items(mode, rest) {
        Ok(done) => done,
        Err(e) => {
            return Err(e);
        },
    };
    let o = match process_item(mode, it) {
        Ok(o) => o,
        Err(e) => {
            return Err(e);
        },
    };
    let ghost donev = view_out_items(done@);
    let mut out = done;
    let ghost oldout = out@;
    out.push(o);
    proof {
        assert(view_out_items(out@) =~= donev.push(view_out_item(o)));
    }
    Ok(out)
}

/// Rewrite one trait implementation block of a message handler: verify the
/// target implements the handler trait, wrap its declared result type and
/// replace its handler method's body by the assembled continuation chain.
pub fn async_handler_inner(is_atomic: bool, input: HandlerImpl) -> (r: Result<
    RewrittenImpl,
    TransformError,
>)
    ensures
        match r {
            Ok(out) => async_handler_inner_spec(is_atomic, view_handler(input)) == Ok::<
                _,
                TransformError,
            >(view_rewritten(out)),
            Err(e) => async_handler_inner_spec(is_atomic, view_handler(input)) == Err::<
                SpecRewritten,
                _,
            >(e),
        },
{
    let is_handler = match input.trait_name {
        Some(sym) => sym == SYM_HANDLER,
        None => false,
    };
    if !is_handler {
        return Err(TransformError::NotHandler { loc: input.loc });
    }
    let mode = if is_atomic {
        Mode::Atomic
    } else {
        Mode::NonAtomic
    };
    let HandlerImpl { loc, trait_name, items } = input;
    match process_items(mode, items) {
        Ok(out_items) => Ok(RewrittenImpl { loc, trait_name, items: out_items }),
        Err(e) => Err(e),
    }
}

/// The attribute-processing entry: parse the configuration token run, then
/// drive the rewrite.  An unrecognized configuration is a fatal error
/// reported at the attribute's own location, before any tree processing.
pub fn async_handler_impl(attr: Vec<Token>, attr_loc: u32, input: HandlerImpl) -> (r: Result<
    RewrittenImpl,
    TransformError,
>)
    ensures
        match r {
            Ok(out) => async_handler_impl_spec(attr@, attr_loc, view_handler(input)) == Ok::<
                _,
                TransformError,
            >(view_rewritten(out)),
            Err(e) => async_handler_impl_spec(attr@, attr_loc, view_handler(input)) == Err::<
                SpecRewritten,
                _,
            >(e),
        },
{
    if attr.len() == 0 {
        async_handler_inner(true, input)
    } else if attr.len() == 1 {
        let is_flag = match attr[0] {
            Token::Ident(sym) => sym == SYM_NON_ATOMIC,
            Token::Other(_) => false,
        };
        if is_flag {
            async_handler_inner(false, input)
        } else {
            Err(TransformError::Config { loc: attr_loc })
        }
    } else {
        Err(TransformError::Config { loc: attr_loc })
    }
}

} // verus!
