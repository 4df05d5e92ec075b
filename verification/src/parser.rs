//! The parser: precedence climbing over the token stream. An expression
//! is a primary — literal, name, bracketed sub-block, or unary negation —
//! followed by operators of at least the current priority; an operator
//! binds its right-hand side at one priority higher, so equal priorities
//! associate to the left. A block is a list of statements, each ended by
//! a comma or a dot, closed by its delimiter; the separator before the
//! delimiter picks the block's default kind: value-producing for the
//! comma, sequential for the dot. Every parse function is specified by a
//! total specification parser, `sp_*`, over the token models; malformed
//! input is the syntax fault, exactly where the specification says so.

use vstd::prelude::*;

use crate::ir::wf_stmt;
use crate::types::{stmt_opt_model, 
    action_of_tok, comparsion_of_tok, is_action_tok, is_operation_tok, priority_tok, stmt_model,
    stmts_model, tok_model, toks_model, ActionV, BlockV, Fault, Statement, StatementV, StmtS, TokS,
    TokenV,
};

verus! {

/// The delimiter a block runs to: a closing bracket of a given kind, or
/// the end-of-stream marker.
#[derive(Clone, Copy, Debug)]
pub enum Closer {
    Bracket(u8),
    End,
}

/// Whether a token closes a block opened against the given delimiter.
pub open spec fn closer_matches(t: TokS, c: Closer) -> bool {
    match (t, c) {
        (TokS::Brackets { id, is_opened }, Closer::Bracket(cid)) => !is_opened && id == cid,
        (TokS::EOF, Closer::End) => true,
        _ => false,
    }
}

/// The specification of primary parsing at index `i`: a literal or a name
/// is itself; an opening round bracket holds one statement; the square,
/// curly and angle brackets hold a block, as a storage block, an
/// evaluation block, or a block of the kind its separators pick; the
/// `not` mark and the minus sign negate the expression after them. Any
/// other token is a syntax fault, as is running out of tokens.
pub open spec fn sp_primary(toks: Seq<TokS>, i: int) -> Result<(StmtS, int), Fault>
    decreases toks.len() - i, 0int,
{
    if i < 0 || i >= toks.len() {
        Err(Fault::Syntax)
    } else {
        match toks[i] {
            TokS::Brackets { id, is_opened } => if !is_opened {
                Err(Fault::Syntax)
            } else if id == 1 {
                match sp_statement(toks, i + 1) {
                    Ok((s, j)) => if 0 <= j < toks.len() && (toks[j] matches TokS::Brackets {
                        id: 1,
                        is_opened: false,
                    }) {
                        Ok((s, j + 1))
                    } else {
                        Err(Fault::Syntax)
                    },
                    Err(f) => Err(f),
                }
            } else if id == 2 {
                match sp_block(toks, i + 1, Closer::Bracket(2)) {
                    Ok((stmts, _, j)) => Ok((StmtS::Block(stmts, BlockV::Storage), j)),
                    Err(f) => Err(f),
                }
            } else if id == 3 {
                match sp_block(toks, i + 1, Closer::Bracket(3)) {
                    Ok((stmts, _, j)) => Ok((StmtS::Block(stmts, BlockV::Evaluate), j)),
                    Err(f) => Err(f),
                }
            } else if id == 4 {
                match sp_block(toks, i + 1, Closer::Bracket(4)) {
                    Ok((stmts, kind, j)) => Ok((StmtS::Block(stmts, kind), j)),
                    Err(f) => Err(f),
                }
            } else {
                Err(Fault::Syntax)
            },
            TokS::Mark(m) => if m == 1 {
                match sp_expression(toks, i + 1, 5) {
                    Ok((e, j)) => Ok((StmtS::OperationBool(ActionV::Not, Box::new(e), None), j)),
                    Err(f) => Err(f),
                }
            } else {
                Err(Fault::Syntax)
            },
            TokS::Sign(s) => if s == 2 {
                match sp_expression(toks, i + 1, 5) {
                    Ok((e, j)) => Ok((StmtS::OperationBool(ActionV::Not, Box::new(e), None), j)),
                    Err(f) => Err(f),
                }
            } else {
                Err(Fault::Syntax)
            },
            TokS::Number(n) => Ok((StmtS::Number(n), i + 1)),
            TokS::Bool(b) => Ok((StmtS::Bool(b), i + 1)),
            TokS::Name(s) => Ok((StmtS::Name(s), i + 1)),
            _ => Err(Fault::Syntax),
        }
    }
}

/// The specification of the operator loop: with `left` parsed up to `i`,
/// consume operators of priority at least `min` and their right-hand
/// sides, each parsed one priority higher. A sign builds a numeric
/// operation, a comparison token a comparison, a mark a boolean
/// operation.
pub open spec fn sp_expr_more(toks: Seq<TokS>, i: int, min: u8, left: StmtS) -> Result<
    (StmtS, int),
    Fault,
>
    decreases toks.len() - i, 1int,
{
    if i < 0 || i >= toks.len() {
        Ok((left, i))
    } else {
        let op = toks[i];
        if !is_operation_tok(op) || priority_tok(op) < min {
            Ok((left, i))
        } else {
            match sp_expression(toks, i + 1, (priority_tok(op) + 1) as u8) {
                Err(f) => Err(f),
                Ok((right, j)) => {
                    let combined = match op {
                        TokS::Sign(_) => StmtS::OperationNumder(
                            action_of_tok(op),
                            Box::new(left),
                            Box::new(right),
                        ),
                        TokS::Comparsion(_) => StmtS::Comparsion(
                            comparsion_of_tok(op),
                            Box::new(left),
                            Box::new(right),
                        ),
                        _ => StmtS::OperationBool(
                            action_of_tok(op),
                            Box::new(left),
                            Some(Box::new(right)),
                        ),
                    };
                    if j <= i || j > toks.len() {
                        Err(Fault::Syntax)
                    } else {
                        sp_expr_more(toks, j, min, combined)
                    }
                },
            }
        }
    }
}

/// The specification of expression parsing: a primary, then the operator
/// loop at the given minimum priority.
pub open spec fn sp_expression(toks: Seq<TokS>, i: int, min: u8) -> Result<(StmtS, int), Fault>
    decreases toks.len() - i, 2int,
{
    match sp_primary(toks, i) {
        Err(f) => Err(f),
        Ok((left, j)) => if j <= i || j > toks.len() {
            Err(Fault::Syntax)
        } else {
            sp_expr_more(toks, j, min, left)
        },
    }
}

/// The specification of statement parsing: the `if` mark starts a
/// conditional; the set mark binds the following name to an expression;
/// the jump mark with the again or stop mark is loop control; the input
/// and output marks read a value and emit a statement's value; anything
/// else is an expression.
pub open spec fn sp_statement(toks: Seq<TokS>, i: int) -> Result<(StmtS, int), Fault>
    decreases toks.len() - i, 3int,
{
    if i < 0 || i >= toks.len() {
        Err(Fault::Syntax)
    } else {
        match toks[i] {
            TokS::Mark(m) => if m == 8 {
                sp_if(toks, i + 1)
            } else if m == 3 {
                if i + 1 < toks.len() {
                    match toks[i + 1] {
                        TokS::Name(name) => match sp_expression(toks, i + 2, 1) {
                            Ok((v, j)) => Ok((StmtS::SetName { name, value: Box::new(v) }, j)),
                            Err(f) => Err(f),
                        },
                        _ => Err(Fault::Syntax),
                    }
                } else {
                    Err(Fault::Syntax)
                }
            } else if m == 16 {
                if i + 1 < toks.len() {
                    match toks[i + 1] {
                        TokS::Mark(k) => if k == 17 {
                            Ok((StmtS::Jump(true), i + 2))
                        } else if k == 18 {
                            Ok((StmtS::Jump(false), i + 2))
                        } else {
                            Err(Fault::Syntax)
                        },
                        _ => Err(Fault::Syntax),
                    }
                } else {
                    Err(Fault::Syntax)
                }
            } else if m == 19 {
                Ok((StmtS::In, i + 1))
            } else if m == 20 {
                match sp_statement(toks, i + 1) {
                    Ok((e, j)) => Ok((StmtS::Out(Box::new(e)), j)),
                    Err(f) => Err(f),
                }
            } else {
                sp_expression(toks, i, 1)
            },
            _ => sp_expression(toks, i, 1),
        }
    }
}

/// The specification of a conditional: a condition statement, a then
/// statement, and an else statement exactly when the else mark follows.
pub open spec fn sp_if(toks: Seq<TokS>, i: int) -> Result<(StmtS, int), Fault>
    decreases toks.len() - i, 4int,
{
    match sp_statement(toks, i) {
        Err(f) => Err(f),
        Ok((cond, j)) => if j <= i || j > toks.len() {
            Err(Fault::Syntax)
        } else {
            match sp_statement(toks, j) {
                Err(f) => Err(f),
                Ok((thn, k)) => if k <= j || k > toks.len() {
                    Err(Fault::Syntax)
                } else if k < toks.len() && (toks[k] matches TokS::Mark(12)) {
                    match sp_statement(toks, k + 1) {
                        Ok((els, l)) => Ok(
                            (
                                StmtS::If(
                                    Box::new(cond),
                                    Box::new(thn),
                                    Some(Box::new(els)),
                                ),
                                l,
                            ),
                        ),
                        Err(f) => Err(f),
                    }
                } else {
                    Ok((StmtS::If(Box::new(cond), Box::new(thn), None), k))
                },
            }
        },
    }
}

/// The specification of a block: statements, each ended by a comma or a
/// dot, up to the closing delimiter. The separator before the delimiter
/// picks the kind — the comma a value-producing block, the dot a
/// sequential one — and a block with no statements is value-producing.
pub open spec fn sp_block(toks: Seq<TokS>, i: int, closing: Closer) -> Result<
    (Seq<StmtS>, BlockV, int),
    Fault,
>
    decreases toks.len() - i, 5int,
{
    if i < 0 || i >= toks.len() {
        Err(Fault::Syntax)
    } else if closer_matches(toks[i], closing) {
        Ok((Seq::empty(), BlockV::Draft, i + 1))
    } else {
        match sp_statement(toks, i) {
            Err(f) => Err(f),
            Ok((s, j)) => if j <= i || j >= toks.len() {
                Err(Fault::Syntax)
            } else {
                match toks[j] {
                    TokS::Dot(b) => match sp_block(toks, j + 1, closing) {
                        Ok((rest, kind_rest, k)) => Ok(
                            (
                                seq![s] + rest,
                                if rest.len() == 0 {
                                    if b {
                                        BlockV::Draft
                                    } else {
                                        BlockV::Evaluate
                                    }
                                } else {
                                    kind_rest
                                },
                                k,
                            ),
                        ),
                        Err(f) => Err(f),
                    },
                    _ => Err(Fault::Syntax),
                }
            },
        }
    }
}

/// The specification of a whole program: one block closed by the
/// end-of-stream marker, consuming every token, wrapped as a sequential
/// block.
pub open spec fn sp_program(toks: Seq<TokS>) -> Result<StmtS, Fault> {
    match sp_block(toks, 0, Closer::End) {
        Ok((stmts, _, j)) => if j == toks.len() {
            Ok(StmtS::Block(stmts, BlockV::Evaluate))
        } else {
            Err(Fault::Syntax)
        },
        Err(f) => Err(f),
    }
}

/// Parses a primary, as `sp_primary` states it; the result is well formed
/// and the index advances within the tokens.
#[verifier::rlimit(100)]
fn parse_primary(tokens: &Vec<TokenV>, index: &mut usize) -> (r: Result<Statement, Fault>)
    requires
        *old(index) <= tokens@.len(),
    ensures
        ({
            let sp = sp_primary(toks_model(tokens@), *old(index) as int);
            match r {
                Ok(stmt) => sp == Ok::<(StmtS, int), Fault>(
                    (stmt_model(stmt), *final(index) as int),
                ) && wf_stmt(stmt_model(stmt)) && *old(index) < *final(index) <= tokens@.len(),
                Err(f) => sp == Err::<(StmtS, int), Fault>(f),
            }
        }),
    decreases tokens@.len() - *old(index), 0int,
{
    let ghost tm = toks_model(tokens@);
    let n = tokens.len();
    if *index >= n {
        return Err(Fault::Syntax);
    }
    let i = *index;
    proof {
        assert(tm[i as int] == tok_model(tokens@[i as int]));
    }
    match &tokens[i] {
        TokenV::Brackets { id, is_opened } => {
            if !*is_opened {
                Err(Fault::Syntax)
            } else if *id == 1 {
                *index = i + 1;
                match parse_statement(tokens, index) {
                    Ok(s) => {
                        if *index < n && matches!(
                            &tokens[*index],
                            TokenV::Brackets { id: 1, is_opened: false },
                        ) {
                            proof {
                                assert(tm[*index as int] == tok_model(tokens@[*index as int]));
                            }
                            *index = *index + 1;
                            Ok(s)
                        } else {
                            proof {
                                if *index < n {
                                    assert(tm[*index as int] == tok_model(
                                        tokens@[*index as int],
                                    ));
                                }
                            }
                            Err(Fault::Syntax)
                        }
                    },
                    Err(f) => Err(f),
                }
            } else if *id == 2 {
                *index = i + 1;
                match parse_block(tokens, index, Closer::Bracket(2)) {
                    Ok(p) => {
                        let (stmts, _) = p;
                        let ghost sm = stmts_model(stmts@);
                        let out = Statement {
                            value: Box::new(StatementV::Block(stmts, BlockV::Storage)),
                        };
                        proof {
                            assert(stmt_model(out) == StmtS::Block(sm, BlockV::Storage));
                        }
                        Ok(out)
                    },
                    Err(f) => Err(f),
                }
            } else if *id == 3 {
                *index = i + 1;
                match parse_block(tokens, index, Closer::Bracket(3)) {
                    Ok(p) => {
                        let (stmts, _) = p;
                        let ghost sm = stmts_model(stmts@);
                        let out = Statement {
                            value: Box::new(StatementV::Block(stmts, BlockV::Evaluate)),
                        };
                        proof {
                            assert(stmt_model(out) == StmtS::Block(sm, BlockV::Evaluate));
                        }
                        Ok(out)
                    },
                    Err(f) => Err(f),
                }
            } else if *id == 4 {
                *index = i + 1;
                match parse_block(tokens, index, Closer::Bracket(4)) {
                    Ok(p) => {
                        let (stmts, kind) = p;
                        let ghost sm = stmts_model(stmts@);
                        let out = Statement { value: Box::new(StatementV::Block(stmts, kind)) };
                        proof {
                            assert(stmt_model(out) == StmtS::Block(sm, kind));
                        }
                        Ok(out)
                    },
                    Err(f) => Err(f),
                }
            } else {
                Err(Fault::Syntax)
            }
        },
        TokenV::Mark(m) => {
            if *m == 1 {
                *index = i + 1;
                match parse_expression(tokens, index, 5) {
                    Ok(e) => {
                        let ghost em = stmt_model(e);
                        let out = Statement {
                            value: Box::new(StatementV::OperationBool(ActionV::Not, e, None)),
                        };
                        proof {
                            assert(stmt_opt_model(None::<Statement>) == None::<Box<StmtS>>);
                            assert(stmt_model(out) == StmtS::OperationBool(
                                ActionV::Not,
                                Box::new(em),
                                None,
                            ));
                        }
                        Ok(out)
                    },
                    Err(f) => Err(f),
                }
            } else {
                Err(Fault::Syntax)
            }
        },
        TokenV::Sign(s) => {
            if *s == 2 {
                *index = i + 1;
                match parse_expression(tokens, index, 5) {
                    Ok(e) => {
                        let ghost em = stmt_model(e);
                        let out = Statement {
                            value: Box::new(StatementV::OperationBool(ActionV::Not, e, None)),
                        };
                        proof {
                            assert(stmt_opt_model(None::<Statement>) == None::<Box<StmtS>>);
                            assert(stmt_model(out) == StmtS::OperationBool(
                                ActionV::Not,
                                Box::new(em),
                                None,
                            ));
                        }
                        Ok(out)
                    },
                    Err(f) => Err(f),
                }
            } else {
                Err(Fault::Syntax)
            }
        },
        TokenV::Number(v) => {
            *index = i + 1;
            Ok(Statement { value: Box::new(StatementV::Number(*v)) })
        },
        TokenV::Bool(v) => {
            *index = i + 1;
            Ok(Statement { value: Box::new(StatementV::Bool(*v)) })
        },
        TokenV::Name(name) => {
            *index = i + 1;
            Ok(Statement { value: Box::new(StatementV::Name(name.clone())) })
        },
        _ => Err(Fault::Syntax),
    }
}

/// The operator loop, as `sp_expr_more` states it: consumes operators of
/// priority at least `min` and folds them into `left`.
#[verifier::rlimit(100)]
fn parse_expr_more(tokens: &Vec<TokenV>, index: &mut usize, min: u8, left: Statement) -> (r:
    Result<Statement, Fault>)
    requires
        *old(index) <= tokens@.len(),
        1 <= min,
        wf_stmt(stmt_model(left)),
    ensures
        ({
            let sp = sp_expr_more(
                toks_model(tokens@),
                *old(index) as int,
                min,
                stmt_model(left),
            );
            match r {
                Ok(stmt) => sp == Ok::<(StmtS, int), Fault>(
                    (stmt_model(stmt), *final(index) as int),
                ) && wf_stmt(stmt_model(stmt)) && *old(index) <= *final(index) <= tokens@.len(),
                Err(f) => sp == Err::<(StmtS, int), Fault>(f),
            }
        }),
    decreases tokens@.len() - *old(index), 1int,
{
    let ghost tm = toks_model(tokens@);
    let n = tokens.len();
    if *index >= n {
        return Ok(left);
    }
    let i = *index;
    proof {
        assert(tm[i as int] == tok_model(tokens@[i as int]));
    }
    let prio = tokens[i].get_operation_priorety();
    if !tokens[i].is_operation() || prio < min {
        return Ok(left);
    }
    proof {
        assert(priority_tok(tm[i as int]) <= 6);
        match tm[i as int] {
            TokS::Sign(s) => {
                assert(1 <= s <= 5);
                assert(is_action_tok(tm[i as int]));
            },
            TokS::Mark(m) => {
                assert(m == 1 || m == 7 || m == 9);
                assert(is_action_tok(tm[i as int]));
            },
            _ => {},
        }
    }
    *index = i + 1;
    match parse_expression(tokens, index, prio + 1) {
        Err(f) => Err(f),
        Ok(right) => {
            let ghost lm = stmt_model(left);
            let ghost rm = stmt_model(right);
            let ghost op_m = tm[i as int];
            let combined = match &tokens[i] {
                TokenV::Sign(_) => {
                    let act = tokens[i].token_to_action_type();
                    let c = Statement {
                        value: Box::new(StatementV::OperationNumder(act, left, right)),
                    };
                    proof {
                        assert(stmt_model(c) == StmtS::OperationNumder(
                            action_of_tok(op_m),
                            Box::new(lm),
                            Box::new(rm),
                        ));
                        assert(wf_stmt(stmt_model(c)));
                    }
                    c
                },
                TokenV::Comparsion(_) => {
                    let cmp = tokens[i].token_to_comparsion_type();
                    let c = Statement {
                        value: Box::new(StatementV::Comparsion(cmp, left, right)),
                    };
                    proof {
                        assert(stmt_model(c) == StmtS::Comparsion(
                            comparsion_of_tok(op_m),
                            Box::new(lm),
                            Box::new(rm),
                        ));
                        assert(wf_stmt(stmt_model(c)));
                    }
                    c
                },
                _ => {
                    let act = tokens[i].token_to_action_type();
                    let c = Statement {
                        value: Box::new(StatementV::OperationBool(act, left, Some(right))),
                    };
                    proof {
                        assert(stmt_opt_model(Some(right)) == Some(Box::new(rm)));
                        assert(stmt_model(c) == StmtS::OperationBool(
                            action_of_tok(op_m),
                            Box::new(lm),
                            Some(Box::new(rm)),
                        ));
                        assert(wf_stmt(stmt_model(c)));
                    }
                    c
                },
            };
            parse_expr_more(tokens, index, min, combined)
        },
    }
}

/// Parses an expression by precedence climbing, as `sp_expression` states
/// it: a primary, then operators of at least the given priority, each
/// right-hand side bound one priority higher, so that equal priorities
/// associate to the left.
fn parse_expression(tokens: &Vec<TokenV>, index: &mut usize, min_priority: u8) -> (r: Result<
    Statement,
    Fault,
>)
    requires
        *old(index) <= tokens@.len(),
        1 <= min_priority,
    ensures
        ({
            let sp = sp_expression(toks_model(tokens@), *old(index) as int, min_priority);
            match r {
                Ok(stmt) => sp == Ok::<(StmtS, int), Fault>(
                    (stmt_model(stmt), *final(index) as int),
                ) && wf_stmt(stmt_model(stmt)) && *old(index) < *final(index) <= tokens@.len(),
                Err(f) => sp == Err::<(StmtS, int), Fault>(f),
            }
        }),
    decreases tokens@.len() - *old(index), 2int,
{
    match parse_primary(tokens, index) {
        Err(f) => Err(f),
        Ok(left) => parse_expr_more(tokens, index, min_priority, left),
    }
}

/// Parses one statement, as `sp_statement` states it.
#[verifier::rlimit(100)]
fn parse_statement(tokens: &Vec<TokenV>, index: &mut usize) -> (r: Result<Statement, Fault>)
    requires
        *old(index) <= tokens@.len(),
    ensures
        ({
            let sp = sp_statement(toks_model(tokens@), *old(index) as int);
            match r {
                Ok(stmt) => sp == Ok::<(StmtS, int), Fault>(
                    (stmt_model(stmt), *final(index) as int),
                ) && wf_stmt(stmt_model(stmt)) && *old(index) < *final(index) <= tokens@.len(),
                Err(f) => sp == Err::<(StmtS, int), Fault>(f),
            }
        }),
    decreases tokens@.len() - *old(index), 3int,
{
    let ghost tm = toks_model(tokens@);
    let n = tokens.len();
    if *index >= n {
        return Err(Fault::Syntax);
    }
    let i = *index;
    proof {
        assert(tm[i as int] == tok_model(tokens@[i as int]));
    }
    let mark = match &tokens[i] {
        TokenV::Mark(m) => Some(*m),
        _ => None,
    };
    match mark {
        Some(8) => {
            *index = i + 1;
            parse_if_statement(tokens, index)
        },
        Some(3) => {
            if i + 1 < n {
                proof {
                    assert(tm[i as int + 1] == tok_model(tokens@[i as int + 1]));
                }
                match &tokens[i + 1] {
                    TokenV::Name(_) => {
                        let name = tokens[i + 1].get_string_from_name();
                        *index = i + 2;
                        match parse_expression(tokens, index, 1) {
                            Ok(value) => Ok(
                                Statement {
                                    value: Box::new(StatementV::SetName { name, value }),
                                },
                            ),
                            Err(f) => Err(f),
                        }
                    },
                    _ => Err(Fault::Syntax),
                }
            } else {
                Err(Fault::Syntax)
            }
        },
        Some(16) => {
            if i + 1 < n {
                proof {
                    assert(tm[i as int + 1] == tok_model(tokens@[i as int + 1]));
                }
                match &tokens[i + 1] {
                    TokenV::Mark(k) => {
                        if *k == 17 {
                            *index = i + 2;
                            Ok(Statement { value: Box::new(StatementV::Jump(true)) })
                        } else if *k == 18 {
                            *index = i + 2;
                            Ok(Statement { value: Box::new(StatementV::Jump(false)) })
                        } else {
                            Err(Fault::Syntax)
                        }
                    },
                    _ => Err(Fault::Syntax),
                }
            } else {
                Err(Fault::Syntax)
            }
        },
        Some(19) => {
            *index = i + 1;
            Ok(Statement { value: Box::new(StatementV::In) })
        },
        Some(20) => {
            *index = i + 1;
            match parse_statement(tokens, index) {
                Ok(expr) => Ok(Statement { value: Box::new(StatementV::Out { expr }) }),
                Err(f) => Err(f),
            }
        },
        _ => parse_expression(tokens, index, 1),
    }
}

/// Parses a conditional after its `if` mark, as `sp_if` states it: a
/// condition statement, a then statement, and an else statement exactly
/// when the else mark follows.
#[verifier::rlimit(100)]
fn parse_if_statement(tokens: &Vec<TokenV>, index: &mut usize) -> (r: Result<Statement, Fault>)
    requires
        *old(index) <= tokens@.len(),
    ensures
        ({
            let sp = sp_if(toks_model(tokens@), *old(index) as int);
            match r {
                Ok(stmt) => sp == Ok::<(StmtS, int), Fault>(
                    (stmt_model(stmt), *final(index) as int),
                ) && wf_stmt(stmt_model(stmt)) && *old(index) < *final(index) <= tokens@.len(),
                Err(f) => sp == Err::<(StmtS, int), Fault>(f),
            }
        }),
    decreases tokens@.len() - *old(index), 4int,
{
    let ghost tm = toks_model(tokens@);
    match parse_statement(tokens, index) {
        Err(f) => Err(f),
        Ok(condition) => {
            match parse_statement(tokens, index) {
                Err(f) => Err(f),
                Ok(then_branch) => {
                    let k = *index;
                    if k < tokens.len() && matches!(&tokens[k], TokenV::Mark(12)) {
                        proof {
                            assert(tm[k as int] == tok_model(tokens@[k as int]));
                        }
                        *index = k + 1;
                        match parse_statement(tokens, index) {
                            Ok(else_branch) => {
                                let ghost cm = stmt_model(condition);
                                let ghost tm2 = stmt_model(then_branch);
                                let ghost em = stmt_model(else_branch);
                                let out = Statement {
                                    value: Box::new(
                                        StatementV::If(condition, then_branch, Some(else_branch)),
                                    ),
                                };
                                proof {
                                    assert(stmt_opt_model(Some(else_branch)) == Some(
                                        Box::new(em),
                                    ));
                                    assert(stmt_model(out) == StmtS::If(
                                        Box::new(cm),
                                        Box::new(tm2),
                                        Some(Box::new(em)),
                                    ));
                                }
                                Ok(out)
                            },
                            Err(f) => Err(f),
                        }
                    } else {
                        proof {
                            if k < tokens@.len() {
                                assert(tm[k as int] == tok_model(tokens@[k as int]));
                            }
                        }
                        let ghost cm = stmt_model(condition);
                        let ghost tm2 = stmt_model(then_branch);
                        let out = Statement {
                            value: Box::new(StatementV::If(condition, then_branch, None)),
                        };
                        proof {
                            assert(stmt_opt_model(None::<Statement>) == None::<Box<StmtS>>);
                            assert(stmt_model(out) == StmtS::If(Box::new(cm), Box::new(tm2), None));
                        }
                        Ok(out)
                    }
                },
            }
        },
    }
}

/// Parses a block up to its closing delimiter, as `sp_block` states it:
/// statements, each ended by a comma or a dot; the separator before the
/// delimiter picks the block's kind.
#[verifier::rlimit(100)]
pub fn parse_block(tokens: &Vec<TokenV>, index: &mut usize, closing: Closer) -> (r: Result<
    (Vec<Statement>, BlockV),
    Fault,
>)
    requires
        *old(index) <= tokens@.len(),
    ensures
        ({
            let sp = sp_block(toks_model(tokens@), *old(index) as int, closing);
            match r {
                Ok(p) => sp == Ok::<(Seq<StmtS>, BlockV, int), Fault>(
                    (stmts_model(p.0@), p.1, *final(index) as int),
                ) && crate::ir::wf_stmts(stmts_model(p.0@)) && *old(index) < *final(index)
                    <= tokens@.len(),
                Err(f) => sp == Err::<(Seq<StmtS>, BlockV, int), Fault>(f),
            }
        }),
    decreases tokens@.len() - *old(index), 5int,
{
    let ghost tm = toks_model(tokens@);
    let n = tokens.len();
    if *index >= n {
        return Err(Fault::Syntax);
    }
    let i = *index;
    proof {
        assert(tm[i as int] == tok_model(tokens@[i as int]));
    }
    let closes = match (&tokens[i], closing) {
        (TokenV::Brackets { id, is_opened }, Closer::Bracket(cid)) => !*is_opened && *id == cid,
        (TokenV::EOF, Closer::End) => true,
        _ => false,
    };
    if closes {
        *index = i + 1;
        let out: Vec<Statement> = Vec::new();
        proof {
            assert(stmts_model(out@) =~= Seq::<StmtS>::empty());
        }
        return Ok((out, BlockV::Draft));
    }
    match parse_statement(tokens, index) {
        Err(f) => Err(f),
        Ok(s) => {
            let j = *index;
            if j >= n {
                return Err(Fault::Syntax);
            }
            proof {
                assert(tm[j as int] == tok_model(tokens@[j as int]));
            }
            match &tokens[j] {
                TokenV::Dot(b) => {
                    let sep_comma = *b;
                    *index = j + 1;
                    match parse_block(tokens, index, closing) {
                        Err(f) => Err(f),
                        Ok(p) => {
                            let (mut rest, kind_rest) = p;
                            let kind = if rest.len() == 0 {
                                if sep_comma {
                                    BlockV::Draft
                                } else {
                                    BlockV::Evaluate
                                }
                            } else {
                                kind_rest
                            };
                            let ghost rest_m = stmts_model(rest@);
                            let mut out: Vec<Statement> = Vec::new();
                            out.push(s);
                            out.append(&mut rest);
                            proof {
                                assert(stmts_model(out@) =~= seq![stmt_model(s)] + rest_m);
                                assert(rest_m.len() == 0 <==> rest_m =~= Seq::<StmtS>::empty());
                            }
                            Ok((out, kind))
                        },
                    }
                },
                _ => Err(Fault::Syntax),
            }
        },
    }
}

/// Parses a whole program, as `sp_program` states it: one block of
/// statements closed by the end-of-stream marker, consuming every token,
/// wrapped as a sequential block. The result is well formed for lowering.
pub fn parse_program(tokens: &Vec<TokenV>) -> (r: Result<Statement, Fault>)
    ensures
        ({
            let sp = sp_program(toks_model(tokens@));
            match r {
                Ok(stmt) => sp == Ok::<StmtS, Fault>(stmt_model(stmt)) && wf_stmt(
                    stmt_model(stmt),
                ),
                Err(f) => sp == Err::<StmtS, Fault>(f),
            }
        }),
{
    let mut index: usize = 0;
    match parse_block(tokens, &mut index, Closer::End) {
        Ok(p) => {
            let (stmts, _) = p;
            if index == tokens.len() {
                Ok(Statement { value: Box::new(StatementV::Block(stmts, BlockV::Evaluate)) })
            } else {
                Err(Fault::Syntax)
            }
        },
        Err(f) => Err(f),
    }
}

} // verus!
