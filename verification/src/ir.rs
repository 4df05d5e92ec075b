//! The flat intermediate representation: instructions, match patterns,
//! their mathematical models, and deep copies.

use vstd::prelude::*;

use crate::types::{stmt_model, stmt_opt_model, stmts_model, ActionV, BlockV, ComparsionV, Statement, StatementV, StmtS};

verus! {

/// One pattern of a `Case` instruction: bind the top of the stack to a
/// name, require it equal to the value a nested code block computes, or
/// discard it.
#[derive(Debug)]
pub enum MatchPattern {
    Var(String),
    Val(Vec<IR>),
    Unused,
}

/// One instruction. Its position in the enclosing vector is its address;
/// every `Jump` and `Case` target is an absolute index into that same
/// vector, and an index at or past the end means a normal halt.
#[derive(Debug)]
pub enum IR {
    Num(isize),
    Bool(bool),
    Code(Vec<IR>),
    Nil,
    BinExpr(ActionV),
    Not,
    Or,
    And,
    Eql,
    NEql,
    Ls,
    Gt,
    LsEql,
    GtEql,
    Store(String),
    Load(String),
    Jump(usize),
    Define(String, Vec<IR>),
    Exe(String),
    Efine(Vec<IR>),
    Input,
    Output,
    Case(Vec<MatchPattern>, usize),
}

/// Mathematical model of a match pattern.
pub enum PatS {
    Var(Seq<char>),
    Val(Seq<InstrS>),
    Unused,
}

/// Mathematical model of one instruction.
pub enum InstrS {
    Num(isize),
    Bool(bool),
    Code(Seq<InstrS>),
    Nil,
    BinExpr(ActionV),
    Not,
    Or,
    And,
    Eql,
    NEql,
    Ls,
    Gt,
    LsEql,
    GtEql,
    Store(Seq<char>),
    Load(Seq<char>),
    Jump(int),
    Define(Seq<char>, Seq<InstrS>),
    Exe(Seq<char>),
    Efine(Seq<InstrS>),
    Input,
    Output,
    Case(Seq<PatS>, int),
}

/// The model of one instruction: names map to their character sequences,
/// nested code maps elementwise, everything else to itself.
pub open spec fn instr_model(ins: IR) -> InstrS
    decreases ins,
{
    match ins {
        IR::Num(n) => InstrS::Num(n),
        IR::Bool(b) => InstrS::Bool(b),
        IR::Code(c) => InstrS::Code(code_model(c@)),
        IR::Nil => InstrS::Nil,
        IR::BinExpr(op) => InstrS::BinExpr(op),
        IR::Not => InstrS::Not,
        IR::Or => InstrS::Or,
        IR::And => InstrS::And,
        IR::Eql => InstrS::Eql,
        IR::NEql => InstrS::NEql,
        IR::Ls => InstrS::Ls,
        IR::Gt => InstrS::Gt,
        IR::LsEql => InstrS::LsEql,
        IR::GtEql => InstrS::GtEql,
        IR::Store(name) => InstrS::Store(name@),
        IR::Load(name) => InstrS::Load(name@),
        IR::Jump(t) => InstrS::Jump(t as int),
        IR::Define(name, c) => InstrS::Define(name@, code_model(c@)),
        IR::Exe(name) => InstrS::Exe(name@),
        IR::Efine(c) => InstrS::Efine(code_model(c@)),
        IR::Input => InstrS::Input,
        IR::Output => InstrS::Output,
        IR::Case(pats, t) => InstrS::Case(pats_model(pats@), t as int),
    }
}

/// The model of a match pattern.
pub open spec fn pat_model(p: MatchPattern) -> PatS
    decreases p,
{
    match p {
        MatchPattern::Var(name) => PatS::Var(name@),
        MatchPattern::Val(c) => PatS::Val(code_model(c@)),
        MatchPattern::Unused => PatS::Unused,
    }
}

/// Elementwise model of an instruction sequence.
pub open spec fn code_model(c: Seq<IR>) -> Seq<InstrS>
    decreases c,
{
    Seq::new(
        c.len(),
        |i: int|
            if 0 <= i < c.len() {
                instr_model(c[i])
            } else {
                InstrS::Nil
            },
    )
}

/// Elementwise model of a pattern sequence.
pub open spec fn pats_model(p: Seq<MatchPattern>) -> Seq<PatS>
    decreases p,
{
    Seq::new(
        p.len(),
        |i: int|
            if 0 <= i < p.len() {
                pat_model(p[i])
            } else {
                PatS::Unused
            },
    )
}

/// A deep copy of one instruction, equal to the original in the model.
pub fn clone_instr(ins: &IR) -> (r: IR)
    ensures
        instr_model(r) == instr_model(*ins),
    decreases *ins,
{
    match ins {
        IR::Num(n) => IR::Num(*n),
        IR::Bool(b) => IR::Bool(*b),
        IR::Code(c) => IR::Code(clone_code(c)),
        IR::Nil => IR::Nil,
        IR::BinExpr(op) => IR::BinExpr(*op),
        IR::Not => IR::Not,
        IR::Or => IR::Or,
        IR::And => IR::And,
        IR::Eql => IR::Eql,
        IR::NEql => IR::NEql,
        IR::Ls => IR::Ls,
        IR::Gt => IR::Gt,
        IR::LsEql => IR::LsEql,
        IR::GtEql => IR::GtEql,
        IR::Store(name) => IR::Store(name.clone()),
        IR::Load(name) => IR::Load(name.clone()),
        IR::Jump(t) => IR::Jump(*t),
        IR::Define(name, c) => IR::Define(name.clone(), clone_code(c)),
        IR::Exe(name) => IR::Exe(name.clone()),
        IR::Efine(c) => IR::Efine(clone_code(c)),
        IR::Input => IR::Input,
        IR::Output => IR::Output,
        IR::Case(pats, t) => IR::Case(clone_patterns(pats), *t),
    }
}

/// A deep copy of a match pattern, equal to the original in the model.
pub fn clone_pattern(p: &MatchPattern) -> (r: MatchPattern)
    ensures
        pat_model(r) == pat_model(*p),
    decreases *p,
{
    match p {
        MatchPattern::Var(name) => MatchPattern::Var(name.clone()),
        MatchPattern::Val(c) => MatchPattern::Val(clone_code(c)),
        MatchPattern::Unused => MatchPattern::Unused,
    }
}

/// A deep copy of a pattern list, equal to the original in the model.
#[verifier::loop_isolation(false)]
pub fn clone_patterns(pats: &Vec<MatchPattern>) -> (r: Vec<MatchPattern>)
    ensures
        pats_model(r@) == pats_model(pats@),
    decreases *pats,
{
    let mut out: Vec<MatchPattern> = Vec::new();
    let mut i: usize = 0;
    while i < pats.len()
        invariant
            i <= pats@.len(),
            out@.len() == i,
            forall|j: int| 0 <= j < i ==> pat_model(#[trigger] out@[j]) == pat_model(pats@[j]),
        decreases pats@.len() - i,
    {
        out.push(clone_pattern(&pats[i]));
        i += 1;
    }
    assert(pats_model(out@) =~= pats_model(pats@));
    out
}

/// A deep copy of an instruction sequence, equal to the original in the
/// model. The virtual machine uses it where a procedure's code leaves the
/// environment or enters a procedure value.
#[verifier::loop_isolation(false)]
pub fn clone_code(c: &Vec<IR>) -> (r: Vec<IR>)
    ensures
        code_model(r@) == code_model(c@),
    decreases *c,
{
    let mut out: Vec<IR> = Vec::new();
    let mut i: usize = 0;
    while i < c.len()
        invariant
            i <= c@.len(),
            out@.len() == i,
            forall|j: int| 0 <= j < i ==> instr_model(#[trigger] out@[j]) == instr_model(c@[j]),
        decreases c@.len() - i,
    {
        out.push(clone_instr(&c[i]));
        i += 1;
    }
    assert(code_model(out@) =~= code_model(c@));
    out
}

/// Well-formedness of a statement for lowering: boolean operations carry
/// a boolean action, numeric operations an arithmetic one, and every
/// child is well formed. The parser only builds well-formed trees.
pub open spec fn wf_stmt(s: StmtS) -> bool
    decreases s,
{
    match s {
        StmtS::Block(v, _) => wf_stmts(v),
        StmtS::Define { link, .. } => wf_stmt(*link),
        StmtS::Call(f, arg) => wf_stmt(*f) && wf_stmt(*arg),
        StmtS::SetName { value, .. } => wf_stmt(*value),
        StmtS::Nil => true,
        StmtS::Name(_) => true,
        StmtS::Bool(_) => true,
        StmtS::Number(_) => true,
        StmtS::Comparsion(_, l, r) => wf_stmt(*l) && wf_stmt(*r),
        StmtS::OperationBool(op, l, r) => (op == ActionV::Not || op == ActionV::And || op
            == ActionV::Or) && wf_stmt(*l) && (match r {
            Some(rs) => wf_stmt(*rs),
            None => true,
        }),
        StmtS::OperationNumder(op, l, r) => (op == ActionV::Add || op == ActionV::Sub || op
            == ActionV::Div || op == ActionV::Mul || op == ActionV::Mod) && wf_stmt(*l) && wf_stmt(
            *r,
        ),
        StmtS::If(c, t, e) => wf_stmt(*c) && wf_stmt(*t) && (match e {
            Some(es) => wf_stmt(*es),
            None => true,
        }),
        StmtS::Out(e) => wf_stmt(*e),
        StmtS::In => true,
        StmtS::Jump(_) => true,
    }
}

/// Well-formedness of every statement of a list.
pub open spec fn wf_stmts(v: Seq<StmtS>) -> bool
    decreases v,
{
    forall|i: int| 0 <= i < v.len() ==> wf_stmt(#[trigger] v[i])
}

/// An upper bound on the number of instructions a statement lowers to,
/// nested code included, with room for the target arithmetic of `If`.
pub open spec fn stmt_weight(s: StmtS) -> nat
    decreases s,
{
    match s {
        StmtS::Block(v, _) => 1 + stmts_weight(v),
        StmtS::Define { link, .. } => stmt_weight(*link) + 1,
        StmtS::Call(f, arg) => stmt_weight(*f) + stmt_weight(*arg) + 2,
        StmtS::SetName { value, .. } => stmt_weight(*value) + 1,
        StmtS::Nil => 1,
        StmtS::Name(_) => 1,
        StmtS::Bool(_) => 1,
        StmtS::Number(_) => 1,
        StmtS::Comparsion(_, l, r) => stmt_weight(*l) + stmt_weight(*r) + 1,
        StmtS::OperationBool(_, l, r) => stmt_weight(*l) + (match r {
            Some(rs) => stmt_weight(*rs),
            None => 0,
        }) + 1,
        StmtS::OperationNumder(_, l, r) => stmt_weight(*l) + stmt_weight(*r) + 1,
        StmtS::If(c, t, e) => stmt_weight(*c) + stmt_weight(*t) + (match e {
            Some(es) => stmt_weight(*es),
            None => 0,
        }) + 4,
        StmtS::Out(e) => stmt_weight(*e) + 1,
        StmtS::In => 1,
        StmtS::Jump(_) => 1,
    }
}

/// The combined weight of a statement list.
pub open spec fn stmts_weight(v: Seq<StmtS>) -> nat
    decreases v,
{
    if v.len() == 0 {
        0
    } else {
        stmts_weight(v.drop_last()) + stmt_weight(v.last())
    }
}

/// The guard pattern an `If` lowers to: the condition's value must equal
/// the value that the one-instruction block `[Bool(true)]` computes.
pub open spec fn if_guard_pattern() -> Seq<PatS> {
    seq![PatS::Val(seq![InstrS::Bool(true)])]
}

/// The fail target of an `If` guard, computed from the length of the
/// vector at the moment the guard is emitted: the guard itself and the
/// single instruction of the branch body are skipped, plus the jump over
/// the then-branch when an else-branch follows.
pub open spec fn spec_if_fail_target(len_at_guard: int, has_else: bool) -> int {
    len_at_guard + 2 + if has_else {
        1int
    } else {
        0int
    }
}

/// The target of the jump emitted between a then-branch and an
/// else-branch, computed from the length of the vector at the moment the
/// jump is emitted: the jump itself and the single instruction of the
/// else-branch are skipped.
pub open spec fn spec_jump_over_else_target(len_at_jump: int) -> int {
    len_at_jump + 2
}

/// The lowering of one statement, starting at absolute index `at` of the
/// vector being built. Forward jump targets are absolute indices computed
/// at emission time; no later patching pass exists.
pub open spec fn lower_stmt(s: StmtS, at: int) -> Seq<InstrS>
    decreases s,
{
    match s {
        StmtS::Block(v, kind) => match kind {
            BlockV::Evaluate => seq![InstrS::Efine(lower_stmts(v, 0))],
            _ => seq![InstrS::Code(lower_stmts(v, 0))],
        },
        StmtS::Define { link, like } => lower_stmt(*link, at).push(InstrS::Store(like)),
        StmtS::Call(f, arg) => {
            let ac = lower_stmt(*arg, at);
            match *f {
                StmtS::Name(n) => ac.push(InstrS::Exe(n)),
                _ => ac.push(InstrS::Efine(lower_stmt(*f, 0))),
            }
        },
        StmtS::SetName { name, value } => lower_stmt(*value, at).push(InstrS::Store(name)),
        StmtS::Nil => seq![InstrS::Nil],
        StmtS::Name(n) => seq![InstrS::Load(n)],
        StmtS::Bool(b) => seq![InstrS::Bool(b)],
        StmtS::Number(n) => seq![InstrS::Num(n)],
        StmtS::Comparsion(c, l, r) => {
            let lc = lower_stmt(*l, at);
            let rc = lower_stmt(*r, at + lc.len());
            (lc + rc).push(
                match c {
                    ComparsionV::Equal => InstrS::Eql,
                    ComparsionV::NotEqual => InstrS::NEql,
                    ComparsionV::Less => InstrS::Ls,
                    ComparsionV::Greater => InstrS::Gt,
                    ComparsionV::LessOrEqual => InstrS::LsEql,
                    ComparsionV::GreaterOrEqual => InstrS::GtEql,
                },
            )
        },
        StmtS::OperationBool(op, l, r) => {
            let lc = lower_stmt(*l, at);
            let body = match r {
                Some(rs) => lc + lower_stmt(*rs, at + lc.len()),
                None => lc,
            };
            body.push(
                match op {
                    ActionV::Not => InstrS::Not,
                    ActionV::And => InstrS::And,
                    _ => InstrS::Or,
                },
            )
        },
        StmtS::OperationNumder(op, l, r) => {
            let lc = lower_stmt(*l, at);
            let rc = lower_stmt(*r, at + lc.len());
            (lc + rc).push(InstrS::BinExpr(op))
        },
        StmtS::If(c, t, e) => {
            let cs = lower_stmt(*c, at);
            let guard_at = at + cs.len();
            match e {
                None => {
                    let guard = InstrS::Case(if_guard_pattern(), spec_if_fail_target(guard_at, false));
                    cs.push(guard) + lower_stmt(*t, guard_at + 1)
                },
                Some(es) => {
                    let guard = InstrS::Case(if_guard_pattern(), spec_if_fail_target(guard_at, true));
                    let ts = lower_stmt(*t, guard_at + 1);
                    let jump_at = guard_at + 1 + ts.len();
                    let over = InstrS::Jump(spec_jump_over_else_target(jump_at));
                    cs.push(guard) + ts.push(over) + lower_stmt(*es, jump_at + 1)
                },
            }
        },
        StmtS::Out(e) => lower_stmt(*e, at).push(InstrS::Output),
        StmtS::In => seq![InstrS::Input],
        StmtS::Jump(repeat) => seq![
            InstrS::Jump(
                if repeat {
                    0int
                } else {
                    usize::MAX as int
                },
            )
        ],
    }
}

/// The lowering of a statement list into one vector, each statement
/// starting where the previous one ended; `at` is the absolute index
/// where the list begins.
pub open spec fn lower_stmts(v: Seq<StmtS>, at: int) -> Seq<InstrS>
    decreases v,
{
    if v.len() == 0 {
        Seq::empty()
    } else {
        let pre = lower_stmts(v.drop_last(), at);
        pre + lower_stmt(v.last(), at + pre.len())
    }
}

/// A statement lowers to at least one and at most `stmt_weight`
/// instructions, at every starting index.
pub proof fn lemma_lower_stmt_len(s: StmtS, at: int)
    ensures
        1 <= lower_stmt(s, at).len() <= stmt_weight(s),
    decreases s,
{
    match s {
        StmtS::Block(v, _) => {},
        StmtS::Define { link, .. } => lemma_lower_stmt_len(*link, at),
        StmtS::Call(f, arg) => lemma_lower_stmt_len(*arg, at),
        StmtS::SetName { value, .. } => lemma_lower_stmt_len(*value, at),
        StmtS::Comparsion(_, l, r) => {
            lemma_lower_stmt_len(*l, at);
            lemma_lower_stmt_len(*r, at + lower_stmt(*l, at).len());
        },
        StmtS::OperationBool(_, l, r) => {
            lemma_lower_stmt_len(*l, at);
            match r {
                Some(rs) => lemma_lower_stmt_len(*rs, at + lower_stmt(*l, at).len()),
                None => {},
            }
        },
        StmtS::OperationNumder(_, l, r) => {
            lemma_lower_stmt_len(*l, at);
            lemma_lower_stmt_len(*r, at + lower_stmt(*l, at).len());
        },
        StmtS::If(c, t, e) => {
            lemma_lower_stmt_len(*c, at);
            let guard_at = at + lower_stmt(*c, at).len();
            lemma_lower_stmt_len(*t, guard_at + 1);
            match e {
                Some(es) => {
                    let jump_at = guard_at + 1 + lower_stmt(*t, guard_at + 1).len();
                    lemma_lower_stmt_len(*es, jump_at + 1);
                },
                None => {},
            }
        },
        StmtS::Out(e) => lemma_lower_stmt_len(*e, at),
        _ => {},
    }
}

/// A statement list lowers to at most `stmts_weight` instructions.
pub proof fn lemma_lower_stmts_len(v: Seq<StmtS>, at: int)
    ensures
        lower_stmts(v, at).len() <= stmts_weight(v),
    decreases v.len(),
{
    if v.len() > 0 {
        lemma_lower_stmts_len(v.drop_last(), at);
        lemma_lower_stmt_len(v.last(), at + lower_stmts(v.drop_last(), at).len());
    }
}

/// The fail target of an `If` guard, from the vector length at guard
/// emission, as `spec_if_fail_target` states it. The compiler and its
/// tests share this one helper; the arithmetic is written nowhere else.
pub fn if_fail_target(len_at_guard: usize, has_else: bool) -> (r: usize)
    requires
        len_at_guard + 3 <= usize::MAX,
    ensures
        r == spec_if_fail_target(len_at_guard as int, has_else),
{
    if has_else {
        len_at_guard + 3
    } else {
        len_at_guard + 2
    }
}

/// The target of the jump over an else-branch, from the vector length at
/// jump emission, as `spec_jump_over_else_target` states it.
pub fn jump_over_else_target(len_at_jump: usize) -> (r: usize)
    requires
        len_at_jump + 2 <= usize::MAX,
    ensures
        r == spec_jump_over_else_target(len_at_jump as int),
{
    len_at_jump + 2
}

/// The eight little-endian bytes of a number, low byte first.
pub open spec fn isize_le_bytes(n: isize) -> Seq<u8> {
    Seq::new(8, |i: int| (((n as u64) >> ((8 * i) as u64)) % 256) as u8)
}

/// Which statements the flat byte encoding covers: the literals and the
/// statement forms it passes over; the structured forms have no byte
/// encoding.
pub open spec fn bytecode_supported(s: StmtS) -> bool {
    match s {
        StmtS::Block(..) => false,
        StmtS::Define { .. } => false,
        StmtS::Call(..) => false,
        StmtS::SetName { .. } => false,
        StmtS::Name(_) => false,
        StmtS::Comparsion(..) => false,
        _ => true,
    }
}

/// The flat byte encoding of a supported statement: a push opcode and one
/// byte for a boolean, a push opcode and eight little-endian bytes for a
/// number, nothing for the other supported forms, and the halt byte at
/// the end.
pub open spec fn bytecode_of(s: StmtS) -> Seq<u8> {
    (match s {
        StmtS::Bool(b) => seq![
            0u8,
            if b {
                1u8
            } else {
                0u8
            },
        ],
        StmtS::Number(n) => seq![0u8] + isize_le_bytes(n),
        _ => Seq::empty(),
    }).push(255u8)
}

/// Encodes one supported statement as flat bytes, as `bytecode_of` states
/// it.
#[verifier::loop_isolation(false)]
pub fn generate_bytecode(ast_node: Statement) -> (r: Vec<u8>)
    requires
        bytecode_supported(stmt_model(ast_node)),
    ensures
        r@ == bytecode_of(stmt_model(ast_node)),
{
    let mut code: Vec<u8> = Vec::new();
    match &*ast_node.value {
        StatementV::Bool(b) => {
            code.push(0);
            code.push(
                if *b {
                    1
                } else {
                    0
                },
            );
        },
        StatementV::Number(n) => {
            code.push(0);
            let u: u64 = *n as u64;
            let mut k: usize = 0;
            while k < 8
                invariant
                    k <= 8,
                    code@.len() == 1 + k,
                    code@[0] == 0u8,
                    forall|j: int|
                        1 <= j < 1 + k ==> #[trigger] code@[j] == (((u >> ((8 * (j - 1)) as u64))
                            % 256) as u8),
                decreases 8 - k,
            {
                let sh: u64 = (8 * k) as u64;
                code.push(((u >> sh) % 256) as u8);
                k += 1;
            }
            proof {
                assert(code@ =~= seq![0u8] + isize_le_bytes(*n));
            }
        },
        _ => {},
    }
    code.push(255);
    proof {
        assert(code@ =~= bytecode_of(stmt_model(ast_node)));
    }
    code
}

/// Splitting one statement off a prefix of a list adds its weight.
pub proof fn lemma_stmts_weight_take_succ(v: Seq<StmtS>, i: int)
    requires
        0 <= i < v.len(),
    ensures
        stmts_weight(v.take(i + 1)) == stmts_weight(v.take(i)) + stmt_weight(v[i]),
{
    assert(v.take(i + 1).drop_last() =~= v.take(i));
    assert(v.take(i + 1).last() == v[i]);
}

/// The weight of a prefix never exceeds the weight of the whole list.
pub proof fn lemma_stmts_weight_take_le(v: Seq<StmtS>, i: int)
    requires
        0 <= i <= v.len(),
    ensures
        stmts_weight(v.take(i)) <= stmts_weight(v),
    decreases v.len() - i,
{
    if i < v.len() {
        lemma_stmts_weight_take_succ(v, i);
        lemma_stmts_weight_take_le(v, i + 1);
    } else {
        assert(v.take(i) =~= v);
    }
}

/// Lowering one more statement of a list appends its lowering at the
/// index where the prefix ended.
pub proof fn lemma_lower_stmts_take_succ(v: Seq<StmtS>, at: int, i: int)
    requires
        0 <= i < v.len(),
    ensures
        lower_stmts(v.take(i + 1), at) == lower_stmts(v.take(i), at) + lower_stmt(
            v[i],
            at + lower_stmts(v.take(i), at).len(),
        ),
{
    assert(v.take(i + 1).drop_last() =~= v.take(i));
    assert(v.take(i + 1).last() == v[i]);
}

/// The model of an instruction sequence keeps its length.
pub broadcast proof fn lemma_code_model_len(c: Seq<IR>)
    ensures
        #[trigger] code_model(c).len() == c.len(),
{
}

/// Appends one instruction, extending the vector's model by its model.
fn push_instr(ir: &mut Vec<IR>, ins: IR)
    ensures
        code_model(final(ir)@) == code_model(old(ir)@).push(instr_model(ins)),
        final(ir)@.len() == old(ir)@.len() + 1,
{
    let ghost m = instr_model(ins);
    ir.push(ins);
    proof {
        assert(code_model(ir@) =~= code_model(old(ir)@).push(m));
    }
}

/// Lowers one statement, appending its instructions to `ir`, exactly as
/// `lower_stmt` states it for the index at which the appended code
/// begins. The tree is never mutated; forward jump targets are computed
/// from the vector's length at emission time, with no patching pass.
#[verifier::loop_isolation(false)]
#[verifier::rlimit(100)]
pub fn ast_to_ir(ast: &Statement, ir: &mut Vec<IR>)
    requires
        wf_stmt(stmt_model(*ast)),
        old(ir)@.len() + stmt_weight(stmt_model(*ast)) <= usize::MAX,
    ensures
        code_model(final(ir)@) == code_model(old(ir)@) + lower_stmt(
            stmt_model(*ast),
            old(ir)@.len() as int,
        ),
        final(ir)@.len() == old(ir)@.len() + lower_stmt(
            stmt_model(*ast),
            old(ir)@.len() as int,
        ).len(),
    decreases *ast,
{
    broadcast use lemma_code_model_len;

    let ghost at = ir@.len() as int;
    let ghost s_model = stmt_model(*ast);
    match &*ast.value {
        StatementV::Block(stmts, kind) => {
            proof {
                assert(s_model == StmtS::Block(stmts_model(stmts@), *kind));
                assert(wf_stmts(stmts_model(stmts@)));
                assert(stmt_weight(s_model) == 1 + stmts_weight(stmts_model(stmts@)));
            }
            let mut block: Vec<IR> = Vec::new();
            let ghost vm = stmts_model(stmts@);
            let mut i: usize = 0;
            while i < stmts.len()
                invariant
                    i <= stmts@.len(),
                    code_model(block@) == lower_stmts(vm.take(i as int), 0),
                    block@.len() == lower_stmts(vm.take(i as int), 0).len(),
                decreases stmts@.len() - i,
            {
                proof {
                    assert(vm[i as int] == stmt_model(stmts@[i as int]));
                    assert(wf_stmt(vm[i as int]));
                    lemma_stmts_weight_take_succ(vm, i as int);
                    lemma_stmts_weight_take_le(vm, i + 1);
                    lemma_lower_stmts_len(vm.take(i as int), 0);
                }
                ast_to_ir(&stmts[i], &mut block);
                proof {
                    lemma_lower_stmts_take_succ(vm, 0, i as int);
                }
                i += 1;
            }
            proof {
                assert(vm.take(vm.len() as int) =~= vm);
            }
            match kind {
                BlockV::Evaluate => push_instr(ir, IR::Efine(block)),
                _ => push_instr(ir, IR::Code(block)),
            }
            proof {
                assert(code_model(ir@) =~= code_model(old(ir)@) + lower_stmt(s_model, at));
            }
        },
        StatementV::Define { link, like } => {
            ast_to_ir(link, ir);
            push_instr(ir, IR::Store(like.clone()));
            proof {
                assert(code_model(ir@) =~= code_model(old(ir)@) + lower_stmt(s_model, at));
            }
        },
        StatementV::Call(f, arg) => {
            ast_to_ir(arg, ir);
            match &*f.value {
                StatementV::Name(n) => {
                    push_instr(ir, IR::Exe(n.clone()));
                },
                _ => {
                    let mut inner: Vec<IR> = Vec::new();
                    ast_to_ir(f, &mut inner);
                    push_instr(ir, IR::Efine(inner));
                },
            }
            proof {
                assert(code_model(ir@) =~= code_model(old(ir)@) + lower_stmt(s_model, at));
            }
        },
        StatementV::SetName { name, value } => {
            ast_to_ir(value, ir);
            push_instr(ir, IR::Store(name.clone()));
            proof {
                assert(code_model(ir@) =~= code_model(old(ir)@) + lower_stmt(s_model, at));
            }
        },
        StatementV::Nil => {
            push_instr(ir, IR::Nil);
            proof {
                assert(code_model(ir@) =~= code_model(old(ir)@) + lower_stmt(s_model, at));
            }
        },
        StatementV::Name(n) => {
            push_instr(ir, IR::Load(n.clone()));
            proof {
                assert(code_model(ir@) =~= code_model(old(ir)@) + lower_stmt(s_model, at));
            }
        },
        StatementV::Bool(b) => {
            push_instr(ir, IR::Bool(*b));
            proof {
                assert(code_model(ir@) =~= code_model(old(ir)@) + lower_stmt(s_model, at));
            }
        },
        StatementV::Number(n) => {
            push_instr(ir, IR::Num(*n));
            proof {
                assert(code_model(ir@) =~= code_model(old(ir)@) + lower_stmt(s_model, at));
            }
        },
        StatementV::Comparsion(c, l, r) => {
            proof {
                assert(s_model == StmtS::Comparsion(
                    *c,
                    Box::new(stmt_model(*l)),
                    Box::new(stmt_model(*r)),
                ));
                assert(stmt_weight(s_model) == stmt_weight(stmt_model(*l)) + stmt_weight(
                    stmt_model(*r),
                ) + 1);
            }
            ast_to_ir(l, ir);
            proof {
                lemma_lower_stmt_len(stmt_model(*l), at);
                assert(ir@.len() == old(ir)@.len() + lower_stmt(stmt_model(*l), at).len());
            }
            ast_to_ir(r, ir);
            push_instr(
                ir,
                match c {
                    ComparsionV::Equal => IR::Eql,
                    ComparsionV::NotEqual => IR::NEql,
                    ComparsionV::Less => IR::Ls,
                    ComparsionV::Greater => IR::Gt,
                    ComparsionV::LessOrEqual => IR::LsEql,
                    ComparsionV::GreaterOrEqual => IR::GtEql,
                },
            );
            proof {
                assert(code_model(ir@) =~= code_model(old(ir)@) + lower_stmt(s_model, at));
            }
        },
        StatementV::OperationBool(op, l, r) => {
            proof {
                assert(s_model == StmtS::OperationBool(
                    *op,
                    Box::new(stmt_model(*l)),
                    stmt_opt_model(*r),
                ));
            }
            ast_to_ir(l, ir);
            proof {
                lemma_lower_stmt_len(stmt_model(*l), at);
                assert(ir@.len() == old(ir)@.len() + lower_stmt(stmt_model(*l), at).len());
            }
            match r {
                Some(rs) => {
                    proof {
                        assert(stmt_opt_model(*r) == Some(Box::new(stmt_model(*rs))));
                        assert(wf_stmt(stmt_model(*rs)));
                        assert(stmt_weight(s_model) == stmt_weight(stmt_model(*l)) + stmt_weight(
                            stmt_model(*rs),
                        ) + 1);
                    }
                    ast_to_ir(rs, ir);
                },
                None => (),
            }
            push_instr(
                ir,
                match op {
                    ActionV::Not => IR::Not,
                    ActionV::And => IR::And,
                    _ => IR::Or,
                },
            );
            proof {
                assert(code_model(ir@) =~= code_model(old(ir)@) + lower_stmt(s_model, at));
            }
        },
        StatementV::OperationNumder(op, l, r) => {
            proof {
                assert(s_model == StmtS::OperationNumder(
                    *op,
                    Box::new(stmt_model(*l)),
                    Box::new(stmt_model(*r)),
                ));
                assert(stmt_weight(s_model) == stmt_weight(stmt_model(*l)) + stmt_weight(
                    stmt_model(*r),
                ) + 1);
            }
            ast_to_ir(l, ir);
            proof {
                lemma_lower_stmt_len(stmt_model(*l), at);
                assert(ir@.len() == old(ir)@.len() + lower_stmt(stmt_model(*l), at).len());
            }
            ast_to_ir(r, ir);
            push_instr(ir, IR::BinExpr(*op));
            proof {
                assert(code_model(ir@) =~= code_model(old(ir)@) + lower_stmt(s_model, at));
            }
        },
        StatementV::If(c, t, e) => {
            proof {
                assert(s_model == StmtS::If(
                    Box::new(stmt_model(*c)),
                    Box::new(stmt_model(*t)),
                    stmt_opt_model(*e),
                ));
                assert(stmt_weight(s_model) == stmt_weight(stmt_model(*c)) + stmt_weight(
                    stmt_model(*t),
                ) + (match *e {
                    Some(es) => stmt_weight(stmt_model(es)),
                    None => 0nat,
                }) + 4);
            }
            ast_to_ir(c, ir);
            proof {
                lemma_lower_stmt_len(stmt_model(*c), at);
                assert(ir@.len() == old(ir)@.len() + lower_stmt(stmt_model(*c), at).len());
            }
            let has_else = match e {
                Some(_) => true,
                None => false,
            };
            let target = if_fail_target(ir.len(), has_else);
            let mut guard_code: Vec<IR> = Vec::new();
            guard_code.push(IR::Bool(true));
            let mut pats: Vec<MatchPattern> = Vec::new();
            pats.push(MatchPattern::Val(guard_code));
            proof {
                assert(guard_code@ =~= seq![IR::Bool(true)]);
                assert(code_model(guard_code@) =~= seq![InstrS::Bool(true)]);
                assert(pat_model(pats@[0]) == PatS::Val(seq![InstrS::Bool(true)]));
                assert(pats_model(pats@) =~= if_guard_pattern());
            }
            push_instr(ir, IR::Case(pats, target));
            ast_to_ir(t, ir);
            match e {
                Some(es) => {
                    proof {
                        assert(stmt_opt_model(*e) == Some(Box::new(stmt_model(*es))));
                        lemma_lower_stmt_len(
                            stmt_model(*t),
                            at + lower_stmt(stmt_model(*c), at).len() + 1,
                        );
                    }
                    let over = jump_over_else_target(ir.len());
                    push_instr(ir, IR::Jump(over));
                    ast_to_ir(es, ir);
                },
                None => (),
            }
            proof {
                assert(code_model(ir@) =~= code_model(old(ir)@) + lower_stmt(s_model, at));
            }
        },
        StatementV::Out { expr } => {
            ast_to_ir(expr, ir);
            push_instr(ir, IR::Output);
            proof {
                assert(code_model(ir@) =~= code_model(old(ir)@) + lower_stmt(s_model, at));
            }
        },
        StatementV::In => {
            push_instr(ir, IR::Input);
            proof {
                assert(code_model(ir@) =~= code_model(old(ir)@) + lower_stmt(s_model, at));
            }
        },
        StatementV::Jump(repeat) => {
            push_instr(
                ir,
                IR::Jump(
                    if *repeat {
                        0
                    } else {
                        usize::MAX
                    },
                ),
            );
            proof {
                assert(code_model(ir@) =~= code_model(old(ir)@) + lower_stmt(s_model, at));
            }
        },
    }
}

} // verus!
