//! Structural ports of the whole-rewrite tests: each builds one handler
//! implementation in the tree model, runs the rewrite and compares the
//! returned tree against the expected chain, node for node.

use actix_async_handler::ast::{
    Block, ElseBranch, Expr, ForExpr, IfExpr, Stmt, Token, SYM_CTX_INTERNAL, SYM_FIRST_FREE,
    SYM_HANDLE, SYM_HANDLER, SYM_RESULT, SYM_SELF, SYM_SELF_INTERNAL,
};
use actix_async_handler::handler::{
    async_handler_inner, HandlerImpl, ImplItem, MethodSig, OutItem, ParamPat, RewrittenImpl,
};
use actix_async_handler::out::{Arm, Bind, Chain, ChainRet, CondHandle, LoopFold, Mode, Trigger};

const MSG: u32 = SYM_FIRST_FREE;
const CTX: u32 = SYM_FIRST_FREE + 1;
const PRINTLN: u32 = SYM_FIRST_FREE + 2;
const SLEEP_CALL: u32 = SYM_FIRST_FREE + 3;
const LIT_B1: u32 = SYM_FIRST_FREE + 4;
const LIT_B2: u32 = SYM_FIRST_FREE + 5;
const LIT_A1: u32 = SYM_FIRST_FREE + 6;
const LIT_F1: u32 = SYM_FIRST_FREE + 7;
const LIT_F2: u32 = SYM_FIRST_FREE + 8;
const TY_U64: u32 = SYM_FIRST_FREE + 9;
const RESULT1: u32 = SYM_FIRST_FREE + 10;
const RESULT2: u32 = SYM_FIRST_FREE + 11;
const SEND0: u32 = SYM_FIRST_FREE + 12;
const SEND_R1: u32 = SYM_FIRST_FREE + 13;
const SUM_R1_R2: u32 = SYM_FIRST_FREE + 14;
const COND_POS: u32 = SYM_FIRST_FREE + 15;
const SEND_MSG: u32 = SYM_FIRST_FREE + 16;
const PART: u32 = SYM_FIRST_FREE + 17;
const SEND_PART: u32 = SYM_FIRST_FREE + 18;
const BORING: u32 = SYM_FIRST_FREE + 19;
const LIT_42: u32 = SYM_FIRST_FREE + 20;
const RESULT_VAR: u32 = SYM_FIRST_FREE + 21;
const SEND_RESULT: u32 = SYM_FIRST_FREE + 22;
const SEND_42: u32 = SYM_FIRST_FREE + 23;
const COND_OTHER: u32 = SYM_FIRST_FREE + 24;
const COND_NICE: u32 = SYM_FIRST_FREE + 25;
const OTHER_BORING: u32 = SYM_FIRST_FREE + 26;
const SEND_12: u32 = SYM_FIRST_FREE + 27;
const LIT_15: u32 = SYM_FIRST_FREE + 28;
const PONGER: u32 = SYM_FIRST_FREE + 29;
const PONGERS_CLONE: u32 = SYM_FIRST_FREE + 30;
const LIT_PRE: u32 = SYM_FIRST_FREE + 31;
const LIT_MID: u32 = SYM_FIRST_FREE + 32;
const LIT_END: u32 = SYM_FIRST_FREE + 33;
const SEND_PING: u32 = SYM_FIRST_FREE + 34;
const VAR_I: u32 = SYM_FIRST_FREE + 35;

/// A handler impl with one `handle` method over `(msg, ctx)`.
fn handler_method(body: Vec<Stmt>) -> HandlerImpl {
    HandlerImpl {
        loc: 1,
        trait_name: Some(SYM_HANDLER),
        items: vec![ImplItem::Method {
            loc: 2,
            name: SYM_HANDLE,
            sig: MethodSig {
                is_async: true,
                params: vec![ParamPat::Ident(MSG), ParamPat::Ident(CTX)],
            },
            body: Block { stmts: body },
        }],
    }
}

/// The expected rewrite of `handler_method`: one chain method.
fn rewritten_method(chain: Chain) -> RewrittenImpl {
    RewrittenImpl {
        loc: 1,
        trait_name: Some(SYM_HANDLER),
        items: vec![OutItem::ChainMethod { loc: 2, name: SYM_HANDLE, mode: Mode::Atomic, chain }],
    }
}

fn println_stmt(lit: u32) -> Stmt {
    Stmt::Expr(Expr::Macro { path: vec![Token::Ident(PRINTLN)], args: vec![Token::Other(lit)] })
}

/// `sleep(Duration::from_secs(1))`, as one opaque call lexeme.
fn sleep_tokens() -> Vec<Token> {
    vec![Token::Ident(SLEEP_CALL)]
}

/// `self.other_actor.send(..)`: the receiver, then the call lexeme.
fn self_send(call: u32) -> Vec<Token> {
    vec![Token::Ident(SYM_SELF), Token::Other(call)]
}

/// The same after the rename pass.
fn renamed_send(call: u32) -> Vec<Token> {
    vec![Token::Ident(SYM_SELF_INTERNAL), Token::Other(call)]
}

#[test]
fn translation_test_test_splits_awaits_integration() {
    let result = async_handler_inner(
        true,
        handler_method(vec![
            println_stmt(LIT_B1),
            println_stmt(LIT_B2),
            Stmt::Expr(Expr::Await(sleep_tokens())),
            println_stmt(LIT_A1),
            Stmt::Expr(Expr::Await(sleep_tokens())),
            Stmt::Expr(Expr::Await(sleep_tokens())),
            println_stmt(LIT_F1),
            println_stmt(LIT_F2),
        ]),
    );

    let expected = rewritten_method(Chain::Step {
        bind: None,
        body: vec![println_stmt(LIT_B1), println_stmt(LIT_B2)],
        trigger: Trigger::Future(sleep_tokens()),
        rest: Box::new(Chain::Step {
            bind: None,
            body: vec![println_stmt(LIT_A1)],
            trigger: Trigger::Future(sleep_tokens()),
            rest: Box::new(Chain::Step {
                bind: None,
                body: vec![],
                trigger: Trigger::Future(sleep_tokens()),
                rest: Box::new(Chain::Last {
                    bind: None,
                    body: vec![println_stmt(LIT_F1), println_stmt(LIT_F2)],
                    ret: ChainRet::Value,
                }),
            }),
        }),
    });

    assert_eq!(result, Ok(expected));
}

#[test]
fn translation_test_test_splits_awaits_no_awaits_integration() {
    let mut input = handler_method(vec![println_stmt(LIT_B1), println_stmt(LIT_B2)]);
    input.items.insert(
        0,
        ImplItem::AssocType { loc: 3, name: SYM_RESULT, ty: vec![Token::Ident(TY_U64)] },
    );
    let result = async_handler_inner(true, input);

    let mut expected = rewritten_method(Chain::Last {
        bind: None,
        body: vec![println_stmt(LIT_B1), println_stmt(LIT_B2)],
        ret: ChainRet::Value,
    });
    expected.items.insert(
        0,
        OutItem::WrappedType {
            loc: 3,
            name: SYM_RESULT,
            mode: Mode::Atomic,
            inner: vec![Token::Ident(TY_U64)],
        },
    );

    assert_eq!(result, Ok(expected));
}

#[test]
fn translation_test_test_await_return_value_assignment() {
    let result = async_handler_inner(
        true,
        handler_method(vec![
            Stmt::Local { pat: vec![Token::Ident(RESULT2)], init: None },
            Stmt::Local {
                pat: vec![Token::Ident(RESULT1)],
                init: Some(Expr::Await(self_send(SEND0))),
            },
            Stmt::Assign {
                target: vec![Token::Ident(RESULT2)],
                rhs: Expr::Await(self_send(SEND_R1)),
            },
            Stmt::Expr(Expr::Opaque(vec![Token::Other(SUM_R1_R2)])),
        ]),
    );

    let expected = rewritten_method(Chain::Step {
        bind: None,
        body: vec![Stmt::Local { pat: vec![Token::Ident(RESULT2)], init: None }],
        trigger: Trigger::Future(renamed_send(SEND0)),
        rest: Box::new(Chain::Step {
            bind: Some(Bind::Decl(vec![Token::Ident(RESULT1)])),
            body: vec![],
            trigger: Trigger::Future(renamed_send(SEND_R1)),
            rest: Box::new(Chain::Last {
                bind: Some(Bind::Assign(vec![Token::Ident(RESULT2)])),
                body: vec![Stmt::Expr(Expr::Opaque(vec![Token::Other(SUM_R1_R2)]))],
                ret: ChainRet::Value,
            }),
        }),
    });

    assert_eq!(result, Ok(expected));
}

#[test]
fn translation_test_test_if_single_branch() {
    // `if msg.0 > 0 { self.other_actor.send(0).await; }` as a statement,
    // then a trailing suspension.
    let result = async_handler_inner(
        true,
        handler_method(vec![
            Stmt::Expr(Expr::If(Box::new(IfExpr {
                cond: vec![Token::Other(COND_POS)],
                then_branch: Block {
                    stmts: vec![Stmt::Expr(Expr::Await(self_send(SEND0)))],
                },
                else_branch: None,
            }))),
            Stmt::Expr(Expr::Await(self_send(SEND_MSG))),
        ]),
    );

    let then_chain = Chain::Step {
        bind: None,
        body: vec![],
        trigger: Trigger::Future(renamed_send(SEND0)),
        rest: Box::new(Chain::Last { bind: None, body: vec![], ret: ChainRet::Unit }),
    };
    let expected = rewritten_method(Chain::Step {
        bind: None,
        body: vec![],
        trigger: Trigger::Cond(CondHandle {
            cond: vec![Token::Other(COND_POS)],
            then_arm: Arm::Chain(Box::new(then_chain)),
            else_arm: Arm::ReadyUnit,
        }),
        rest: Box::new(Chain::Step {
            bind: None,
            body: vec![],
            trigger: Trigger::Future(renamed_send(SEND_MSG)),
            rest: Box::new(Chain::Done),
        }),
    });

    assert_eq!(result, Ok(expected));
}

#[test]
fn translation_test_test_if_branch_awaits() {
    // The then arm suspends twice; the else arm is plain and is wrapped as
    // an already-ready handle discarding its value.
    let result = async_handler_inner(
        true,
        handler_method(vec![
            Stmt::Expr(Expr::If(Box::new(IfExpr {
                cond: vec![Token::Other(COND_POS)],
                then_branch: Block {
                    stmts: vec![
                        Stmt::Local {
                            pat: vec![Token::Ident(PART)],
                            init: Some(Expr::Await(self_send(SEND0))),
                        },
                        Stmt::Expr(Expr::Await(self_send(SEND_PART))),
                    ],
                },
                else_branch: Some(ElseBranch::Else(Block {
                    stmts: vec![
                        Stmt::Expr(Expr::Opaque(vec![Token::Other(BORING)])),
                        Stmt::Expr(Expr::Opaque(vec![Token::Other(LIT_42)])),
                    ],
                })),
            }))),
            Stmt::Expr(Expr::Await(self_send(SEND0))),
        ]),
    );

    let then_chain = Chain::Step {
        bind: None,
        body: vec![],
        trigger: Trigger::Future(renamed_send(SEND0)),
        rest: Box::new(Chain::Step {
            bind: Some(Bind::Decl(vec![Token::Ident(PART)])),
            body: vec![],
            trigger: Trigger::Future(renamed_send(SEND_PART)),
            rest: Box::new(Chain::Last { bind: None, body: vec![], ret: ChainRet::Unit }),
        }),
    };
    let expected = rewritten_method(Chain::Step {
        bind: None,
        body: vec![],
        trigger: Trigger::Cond(CondHandle {
            cond: vec![Token::Other(COND_POS)],
            then_arm: Arm::Chain(Box::new(then_chain)),
            else_arm: Arm::Ready {
                body: Block {
                    stmts: vec![
                        Stmt::Expr(Expr::Opaque(vec![Token::Other(BORING)])),
                        Stmt::Expr(Expr::Opaque(vec![Token::Other(LIT_42)])),
                    ],
                },
                unit_value: true,
            },
        }),
        rest: Box::new(Chain::Step {
            bind: None,
            body: vec![],
            trigger: Trigger::Future(renamed_send(SEND0)),
            rest: Box::new(Chain::Done),
        }),
    });

    assert_eq!(result, Ok(expected));
}

#[test]
fn translation_test_test_if_branch_awaits_return_value() {
    // The conditional's value is bound: the binding happens in the step
    // that receives the chosen handle's result, not inside either arm.
    let result = async_handler_inner(
        true,
        handler_method(vec![
            Stmt::Local {
                pat: vec![Token::Ident(RESULT_VAR)],
                init: Some(Expr::If(Box::new(IfExpr {
                    cond: vec![Token::Other(COND_POS)],
                    then_branch: Block {
                        stmts: vec![
                            Stmt::Local {
                                pat: vec![Token::Ident(PART)],
                                init: Some(Expr::Await(self_send(SEND0))),
                            },
                            Stmt::Expr(Expr::Await(self_send(SEND_PART))),
                        ],
                    },
                    else_branch: Some(ElseBranch::Else(Block {
                        stmts: vec![
                            Stmt::Expr(Expr::Opaque(vec![Token::Other(BORING)])),
                            Stmt::Expr(Expr::Opaque(vec![Token::Other(LIT_42)])),
                        ],
                    })),
                }))),
            },
            Stmt::Expr(Expr::Await(self_send(SEND_RESULT))),
        ]),
    );

    let then_chain = Chain::Step {
        bind: None,
        body: vec![],
        trigger: Trigger::Future(renamed_send(SEND0)),
        rest: Box::new(Chain::Step {
            bind: Some(Bind::Decl(vec![Token::Ident(PART)])),
            body: vec![],
            trigger: Trigger::Future(renamed_send(SEND_PART)),
            rest: Box::new(Chain::Done),
        }),
    };
    let expected = rewritten_method(Chain::Step {
        bind: None,
        body: vec![],
        trigger: Trigger::Cond(CondHandle {
            cond: vec![Token::Other(COND_POS)],
            then_arm: Arm::Chain(Box::new(then_chain)),
            else_arm: Arm::Ready {
                body: Block {
                    stmts: vec![
                        Stmt::Expr(Expr::Opaque(vec![Token::Other(BORING)])),
                        Stmt::Expr(Expr::Opaque(vec![Token::Other(LIT_42)])),
                    ],
                },
                unit_value: false,
            },
        }),
        rest: Box::new(Chain::Step {
            bind: Some(Bind::Decl(vec![Token::Ident(RESULT_VAR)])),
            body: vec![],
            trigger: Trigger::Future(renamed_send(SEND_RESULT)),
            rest: Box::new(Chain::Done),
        }),
    });

    assert_eq!(result, Ok(expected));
}

#[test]
fn translation_test_test_if_both_branches_await() {
    let result = async_handler_inner(
        true,
        handler_method(vec![Stmt::Expr(Expr::If(Box::new(IfExpr {
            cond: vec![Token::Other(COND_POS)],
            then_branch: Block {
                stmts: vec![Stmt::Expr(Expr::Await(self_send(SEND0)))],
            },
            else_branch: Some(ElseBranch::Else(Block {
                stmts: vec![Stmt::Expr(Expr::Await(self_send(SEND_42)))],
            })),
        })))]),
    );

    let arm_chain = |call: u32| Chain::Step {
        bind: None,
        body: vec![],
        trigger: Trigger::Future(renamed_send(call)),
        rest: Box::new(Chain::Last { bind: None, body: vec![], ret: ChainRet::Unit }),
    };
    let expected = rewritten_method(Chain::Step {
        bind: None,
        body: vec![],
        trigger: Trigger::Cond(CondHandle {
            cond: vec![Token::Other(COND_POS)],
            then_arm: Arm::Chain(Box::new(arm_chain(SEND0))),
            else_arm: Arm::Chain(Box::new(arm_chain(SEND_42))),
        }),
        rest: Box::new(Chain::Done),
    });

    assert_eq!(result, Ok(expected));
}

#[test]
fn translation_test_test_if_else_awaits() {
    // Only the else arm suspends: the then arm is wrapped already-ready.
    let result = async_handler_inner(
        true,
        handler_method(vec![Stmt::Local {
            pat: vec![Token::Ident(RESULT_VAR)],
            init: Some(Expr::If(Box::new(IfExpr {
                cond: vec![Token::Other(COND_POS)],
                then_branch: Block {
                    stmts: vec![Stmt::Expr(Expr::Opaque(vec![Token::Other(BORING)]))],
                },
                else_branch: Some(ElseBranch::Else(Block {
                    stmts: vec![Stmt::Expr(Expr::Await(self_send(SEND_42)))],
                })),
            }))),
        }]),
    );

    let else_chain = Chain::Step {
        bind: None,
        body: vec![],
        trigger: Trigger::Future(renamed_send(SEND_42)),
        rest: Box::new(Chain::Done),
    };
    let expected = rewritten_method(Chain::Step {
        bind: None,
        body: vec![],
        trigger: Trigger::Cond(CondHandle {
            cond: vec![Token::Other(COND_POS)],
            then_arm: Arm::Ready {
                body: Block {
                    stmts: vec![Stmt::Expr(Expr::Opaque(vec![Token::Other(BORING)]))],
                },
                unit_value: false,
            },
            else_arm: Arm::Chain(Box::new(else_chain)),
        }),
        rest: Box::new(Chain::Last {
            bind: Some(Bind::Decl(vec![Token::Ident(RESULT_VAR)])),
            body: vec![],
            ret: ChainRet::Value,
        }),
    });

    assert_eq!(result, Ok(expected));
}

#[test]
fn translation_test_test_if_else_chain_awaits() {
    // A four-arm else-if chain: two plain arms wrapped already-ready, two
    // suspending arms as sub-chains, spliced without double wrapping.
    let result = async_handler_inner(
        true,
        handler_method(vec![Stmt::Local {
            pat: vec![Token::Ident(RESULT_VAR)],
            init: Some(Expr::If(Box::new(IfExpr {
                cond: vec![Token::Other(COND_POS)],
                then_branch: Block {
                    stmts: vec![Stmt::Expr(Expr::Opaque(vec![Token::Other(BORING)]))],
                },
                else_branch: Some(ElseBranch::ElseIf(Box::new(IfExpr {
                    cond: vec![Token::Other(COND_OTHER)],
                    then_branch: Block {
                        stmts: vec![Stmt::Expr(Expr::Opaque(vec![Token::Other(OTHER_BORING)]))],
                    },
                    else_branch: Some(ElseBranch::ElseIf(Box::new(IfExpr {
                        cond: vec![Token::Other(COND_NICE)],
                        then_branch: Block {
                            stmts: vec![Stmt::Expr(Expr::Await(self_send(SEND_12)))],
                        },
                        else_branch: Some(ElseBranch::Else(Block {
                            stmts: vec![Stmt::Expr(Expr::Await(self_send(SEND_42)))],
                        })),
                    }))),
                }))),
            }))),
        }]),
    );

    let arm_chain = |call: u32| Chain::Step {
        bind: None,
        body: vec![],
        trigger: Trigger::Future(renamed_send(call)),
        rest: Box::new(Chain::Done),
    };
    let inner_handle = CondHandle {
        cond: vec![Token::Other(COND_NICE)],
        then_arm: Arm::Chain(Box::new(arm_chain(SEND_12))),
        else_arm: Arm::Chain(Box::new(arm_chain(SEND_42))),
    };
    let mid_handle = CondHandle {
        cond: vec![Token::Other(COND_OTHER)],
        then_arm: Arm::Ready {
            body: Block {
                stmts: vec![Stmt::Expr(Expr::Opaque(vec![Token::Other(OTHER_BORING)]))],
            },
            unit_value: false,
        },
        else_arm: Arm::ElseIf(Box::new(inner_handle)),
    };
    let expected = rewritten_method(Chain::Step {
        bind: None,
        body: vec![],
        trigger: Trigger::Cond(CondHandle {
            cond: vec![Token::Other(COND_POS)],
            then_arm: Arm::Ready {
                body: Block {
                    stmts: vec![Stmt::Expr(Expr::Opaque(vec![Token::Other(BORING)]))],
                },
                unit_value: false,
            },
            else_arm: Arm::ElseIf(Box::new(mid_handle)),
        }),
        rest: Box::new(Chain::Last {
            bind: Some(Bind::Decl(vec![Token::Ident(RESULT_VAR)])),
            body: vec![],
            ret: ChainRet::Value,
        }),
    });

    assert_eq!(result, Ok(expected));
}

#[test]
fn translation_test_test_if_assigns() {
    // The conditional's value is assigned into an existing binding in the
    // continuation that receives the handle's result.
    let result = async_handler_inner(
        true,
        handler_method(vec![
            Stmt::Local { pat: vec![Token::Ident(RESULT_VAR)], init: None },
            Stmt::Assign {
                target: vec![Token::Ident(RESULT_VAR)],
                rhs: Expr::If(Box::new(IfExpr {
                    cond: vec![Token::Other(COND_POS)],
                    then_branch: Block {
                        stmts: vec![Stmt::Expr(Expr::Await(self_send(SEND_PART)))],
                    },
                    else_branch: Some(ElseBranch::Else(Block {
                        stmts: vec![Stmt::Expr(Expr::Opaque(vec![Token::Other(LIT_15)]))],
                    })),
                })),
            },
            Stmt::Expr(Expr::Await(self_send(SEND_RESULT))),
        ]),
    );

    let then_chain = Chain::Step {
        bind: None,
        body: vec![],
        trigger: Trigger::Future(renamed_send(SEND_PART)),
        rest: Box::new(Chain::Done),
    };
    let expected = rewritten_method(Chain::Step {
        bind: None,
        body: vec![Stmt::Local { pat: vec![Token::Ident(RESULT_VAR)], init: None }],
        trigger: Trigger::Cond(CondHandle {
            cond: vec![Token::Other(COND_POS)],
            then_arm: Arm::Chain(Box::new(then_chain)),
            else_arm: Arm::Ready {
                body: Block {
                    stmts: vec![Stmt::Expr(Expr::Opaque(vec![Token::Other(LIT_15)]))],
                },
                unit_value: false,
            },
        }),
        rest: Box::new(Chain::Step {
            bind: Some(Bind::Assign(vec![Token::Ident(RESULT_VAR)])),
            body: vec![],
            trigger: Trigger::Future(renamed_send(SEND_RESULT)),
            rest: Box::new(Chain::Done),
        }),
    });

    assert_eq!(result, Ok(expected));
}

#[test]
fn translation_test_test_for_loop() {
    // A loop used as a plain statement: the fold threads a unit
    // accumulator and each iteration's chain yields unit.
    let result = async_handler_inner(
        true,
        handler_method(vec![
            Stmt::Expr(Expr::For(Box::new(ForExpr {
                pat: vec![Token::Ident(PONGER)],
                iter: vec![Token::Ident(SYM_SELF), Token::Other(PONGERS_CLONE)],
                body: Block {
                    stmts: vec![
                        println_stmt(LIT_PRE),
                        Stmt::Expr(Expr::Await(vec![Token::Ident(PONGER), Token::Other(SEND_MSG)])),
                        println_stmt(LIT_MID),
                        Stmt::Expr(Expr::Await(vec![
                            Token::Ident(PONGER),
                            Token::Other(SEND_PING),
                        ])),
                        println_stmt(LIT_END),
                    ],
                },
            }))),
            Stmt::Expr(Expr::Await(self_send(SEND_MSG))),
        ]),
    );

    let body_chain = Chain::Step {
        bind: None,
        body: vec![println_stmt(LIT_PRE)],
        trigger: Trigger::Future(vec![Token::Ident(PONGER), Token::Other(SEND_MSG)]),
        rest: Box::new(Chain::Step {
            bind: None,
            body: vec![println_stmt(LIT_MID)],
            trigger: Trigger::Future(vec![Token::Ident(PONGER), Token::Other(SEND_PING)]),
            rest: Box::new(Chain::Last {
                bind: None,
                body: vec![println_stmt(LIT_END)],
                ret: ChainRet::Unit,
            }),
        }),
    };
    let expected = rewritten_method(Chain::Step {
        bind: None,
        body: vec![],
        trigger: Trigger::Fold(LoopFold {
            pat: vec![Token::Ident(PONGER)],
            iter: vec![Token::Ident(SYM_SELF_INTERNAL), Token::Other(PONGERS_CLONE)],
            acc: None,
            body: Box::new(body_chain),
        }),
        rest: Box::new(Chain::Step {
            bind: None,
            body: vec![],
            trigger: Trigger::Future(renamed_send(SEND_MSG)),
            rest: Box::new(Chain::Done),
        }),
    });

    assert_eq!(result, Ok(expected));
}

#[test]
fn test_for_loop_returns() {
    // A loop assigned into a pre-declared binding: the fold's accumulator
    // is that binding, each iteration's chain yields its new value, and
    // the binding is assigned once, after the fold completes.
    let result = async_handler_inner(
        true,
        handler_method(vec![
            Stmt::Local { pat: vec![Token::Ident(VAR_I)], init: None },
            Stmt::Assign {
                target: vec![Token::Ident(VAR_I)],
                rhs: Expr::For(Box::new(ForExpr {
                    pat: vec![Token::Ident(PONGER)],
                    iter: vec![Token::Ident(SYM_SELF), Token::Other(PONGERS_CLONE)],
                    body: Block {
                        stmts: vec![
                            println_stmt(LIT_PRE),
                            Stmt::Expr(Expr::Await(vec![
                                Token::Ident(PONGER),
                                Token::Other(SEND_MSG),
                            ])),
                            println_stmt(LIT_MID),
                            Stmt::Expr(Expr::Await(vec![
                                Token::Ident(PONGER),
                                Token::Other(SEND_PING),
                            ])),
                            println_stmt(LIT_END),
                        ],
                    },
                })),
            },
            Stmt::Expr(Expr::Await(self_send(SEND_MSG))),
        ]),
    );

    let body_chain = Chain::Step {
        bind: None,
        body: vec![println_stmt(LIT_PRE)],
        trigger: Trigger::Future(vec![Token::Ident(PONGER), Token::Other(SEND_MSG)]),
        rest: Box::new(Chain::Step {
            bind: None,
            body: vec![println_stmt(LIT_MID)],
            trigger: Trigger::Future(vec![Token::Ident(PONGER), Token::Other(SEND_PING)]),
            rest: Box::new(Chain::Last {
                bind: None,
                body: vec![println_stmt(LIT_END)],
                ret: ChainRet::Acc(vec![Token::Ident(VAR_I)]),
            }),
        }),
    };
    let expected = rewritten_method(Chain::Step {
        bind: None,
        body: vec![Stmt::Local { pat: vec![Token::Ident(VAR_I)], init: None }],
        trigger: Trigger::Fold(LoopFold {
            pat: vec![Token::Ident(PONGER)],
            iter: vec![Token::Ident(SYM_SELF_INTERNAL), Token::Other(PONGERS_CLONE)],
            acc: Some(vec![Token::Ident(VAR_I)]),
            body: Box::new(body_chain),
        }),
        rest: Box::new(Chain::Step {
            bind: Some(Bind::Assign(vec![Token::Ident(VAR_I)])),
            body: vec![],
            trigger: Trigger::Future(renamed_send(SEND_MSG)),
            rest: Box::new(Chain::Done),
        }),
    });

    assert_eq!(result, Ok(expected));
}
