//! The virtual machine: a stack machine over the flat instruction list,
//! with a shared name environment, pattern-based conditional dispatch,
//! first-class procedure values, and input/output ports. The machine is
//! specified by a fuel-indexed interpreter, `run`: every behaviour of the
//! executable machine — final stack, environment, port state, emitted
//! values, and every fault — equals what `run` states, so execution is a
//! function of its inputs and the step budget.

use vstd::prelude::*;

use crate::environment::{env_model, Environment};
use crate::ir::{
    clone_code, code_model, instr_model, pat_model, pats_model, InstrS, MatchPattern, PatS, IR,
};
use crate::types::{
    add_vals, and_vals, cmp_vals, deliver_val, div_vals, listener_model, mul_vals, not_val,
    or_vals, rem_vals, res_model, sub_vals, val_model, vals_eq, vals_model, value_add, value_and,
    value_cmp, value_div, value_eq, value_mul, value_not, value_or, value_rem, value_sub,
    clone_value, ComparsionV, ActionV, Fault, FlowListener, ListenerS, ValS, VarV,
};

verus! {

/// The model of an environment's contents.
pub type EnvS = Map<Seq<char>, ValS>;

/// What one run of the machine amounts to: the final environment and
/// output-port state, the values emitted through the port in order, and
/// the final operand stack — or the fault that ended the run.
pub struct RunOutcome {
    pub env: EnvS,
    pub port: ListenerS,
    pub emitted: Seq<ValS>,
    pub result: Result<Seq<ValS>, Fault>,
}

/// What matching a pattern list against the stack amounts to: the
/// remaining stack, environment, port and emissions, and the verdict —
/// matched, mismatched, or a fault.
pub struct PatsOutcome {
    pub stack: Seq<ValS>,
    pub env: EnvS,
    pub port: ListenerS,
    pub emitted: Seq<ValS>,
    pub verdict: Result<bool, Fault>,
}

/// The value of a finished block: an empty result is the empty tuple, a
/// single result is that value itself, and two or more results form a
/// tuple in order.
pub open spec fn squash_values(vals: Seq<ValS>) -> ValS {
    if vals.len() == 0 {
        ValS::Tuple(Seq::empty())
    } else if vals.len() == 1 {
        vals[0]
    } else {
        ValS::Tuple(vals)
    }
}

/// A halted outcome: the stack is the result, nothing was emitted.
pub open spec fn out_halt(env: EnvS, port: ListenerS, stack: Seq<ValS>) -> RunOutcome {
    RunOutcome { env, port, emitted: Seq::empty(), result: Ok(stack) }
}

/// A faulted outcome: nothing was emitted from this point on.
pub open spec fn out_fault(env: EnvS, port: ListenerS, f: Fault) -> RunOutcome {
    RunOutcome { env, port, emitted: Seq::empty(), result: Err(f) }
}

/// The same outcome with earlier emissions prepended.
pub open spec fn with_emits(pre: Seq<ValS>, o: RunOutcome) -> RunOutcome {
    RunOutcome { env: o.env, port: o.port, emitted: pre + o.emitted, result: o.result }
}

/// Whether an instruction is one of the ten operator opcodes that
/// `apply_instr_op` handles.
pub open spec fn is_op_instr(ins: InstrS) -> bool {
    match ins {
        InstrS::BinExpr(_) => true,
        InstrS::Not => true,
        InstrS::Or => true,
        InstrS::And => true,
        InstrS::Eql => true,
        InstrS::NEql => true,
        InstrS::Ls => true,
        InstrS::Gt => true,
        InstrS::LsEql => true,
        InstrS::GtEql => true,
        _ => false,
    }
}

/// Applies an operator opcode to the operand stack. The top of the stack
/// is the right operand and the value under it the left one, so that
/// left-to-right source order is kept. Unary `not` takes one operand;
/// everything else takes two; too few operands is a stack underflow, and
/// the value rules decide the rest.
pub open spec fn apply_instr_op(ins: InstrS, stack: Seq<ValS>) -> Result<Seq<ValS>, Fault> {
    if ins is Not {
        if stack.len() < 1 {
            Err(Fault::StackUnderflow)
        } else {
            match not_val(stack.last()) {
                Ok(v) => Ok(stack.drop_last().push(v)),
                Err(f) => Err(f),
            }
        }
    } else if stack.len() < 2 {
        Err(Fault::StackUnderflow)
    } else {
        let a = stack.last();
        let b = stack[stack.len() - 2];
        let res = match ins {
            InstrS::BinExpr(act) => match act {
                ActionV::Add => add_vals(b, a),
                ActionV::Sub => sub_vals(b, a),
                ActionV::Mul => mul_vals(b, a),
                ActionV::Div => div_vals(b, a),
                ActionV::Mod => rem_vals(b, a),
                _ => Err(Fault::TypeMismatch),
            },
            InstrS::Or => or_vals(b, a),
            InstrS::And => and_vals(b, a),
            InstrS::Eql => cmp_vals(ComparsionV::Equal, b, a),
            InstrS::NEql => cmp_vals(ComparsionV::NotEqual, b, a),
            InstrS::Ls => cmp_vals(ComparsionV::Less, b, a),
            InstrS::Gt => cmp_vals(ComparsionV::Greater, b, a),
            InstrS::LsEql => cmp_vals(ComparsionV::LessOrEqual, b, a),
            InstrS::GtEql => cmp_vals(ComparsionV::GreaterOrEqual, b, a),
            _ => Err(Fault::TypeMismatch),
        };
        match res {
            Ok(v) => Ok(stack.drop_last().drop_last().push(v)),
            Err(f) => Err(f),
        }
    }
}

/// One run of the machine over an instruction list, from an empty stack,
/// bounded by a step budget: each instruction costs one unit of fuel, and
/// nested runs get what is left. The interpreter is a function, so two
/// runs from the same inputs and budget are one and the same outcome.
pub open spec fn run(fuel: nat, code: Seq<InstrS>, env: EnvS, port: ListenerS) -> RunOutcome
    decreases fuel, 1nat, 0nat,
{
    run_from(fuel, code, 0, Seq::empty(), env, port)
}

/// The run from an arbitrary machine state: instruction pointer `pc`,
/// operand stack, environment and port. A pointer at or past the end is a
/// normal halt whose result is the current stack; spent fuel is the
/// step-limit fault.
pub open spec fn run_from(
    fuel: nat,
    code: Seq<InstrS>,
    pc: int,
    stack: Seq<ValS>,
    env: EnvS,
    port: ListenerS,
) -> RunOutcome
    decreases fuel, 0nat, 0nat,
{
    if pc < 0 || pc >= code.len() {
        out_halt(env, port, stack)
    } else if fuel == 0 {
        out_fault(env, port, Fault::StepLimit)
    } else {
        let f2 = (fuel - 1) as nat;
        let ins = code[pc];
        match ins {
            InstrS::Nil => run_from(f2, code, pc + 1, stack, env, port),
            InstrS::Num(n) => run_from(f2, code, pc + 1, stack.push(ValS::Num(n)), env, port),
            InstrS::Bool(b) => run_from(f2, code, pc + 1, stack.push(ValS::Bool(b)), env, port),
            InstrS::Code(c) => run_from(
                f2,
                code,
                pc + 1,
                stack.push(ValS::Procedure(c)),
                env,
                port,
            ),
            InstrS::Store(name) => if stack.len() == 0 {
                out_fault(env, port, Fault::StackUnderflow)
            } else {
                run_from(f2, code, pc + 1, stack.drop_last(), env.insert(name, stack.last()), port)
            },
            InstrS::Load(name) => if env.contains_key(name) {
                run_from(f2, code, pc + 1, stack.push(env[name]), env, port)
            } else {
                out_fault(env, port, Fault::UnboundName)
            },
            InstrS::Jump(t) => if t > code.len() {
                out_halt(env, port, stack)
            } else {
                run_from(f2, code, t, stack, env, port)
            },
            InstrS::Exe(name) => if !env.contains_key(name) {
                out_fault(env, port, Fault::UnboundName)
            } else {
                match env[name] {
                    ValS::Procedure(c) => {
                        let inner = run(f2, c, env, port);
                        match inner.result {
                            Ok(vals) => with_emits(
                                inner.emitted,
                                run_from(f2, code, pc + 1, stack + vals, inner.env, inner.port),
                            ),
                            Err(f) => RunOutcome {
                                env: inner.env,
                                port: inner.port,
                                emitted: inner.emitted,
                                result: Err(f),
                            },
                        }
                    },
                    _ => out_fault(env, port, Fault::TypeMismatch),
                }
            },
            InstrS::Define(name, c) => run_from(
                f2,
                code,
                pc + 1,
                stack,
                env.insert(name, ValS::Procedure(c)),
                port,
            ),
            InstrS::Efine(c) => {
                let inner = run(f2, c, env, port);
                match inner.result {
                    Ok(vals) => with_emits(
                        inner.emitted,
                        run_from(f2, code, pc + 1, stack + vals, inner.env, inner.port),
                    ),
                    Err(f) => RunOutcome {
                        env: inner.env,
                        port: inner.port,
                        emitted: inner.emitted,
                        result: Err(f),
                    },
                }
            },
            InstrS::Input => run_from(f2, code, pc + 1, stack.push(ValS::Num(0)), env, port),
            InstrS::Output => if stack.len() == 0 {
                out_fault(env, port, Fault::StackUnderflow)
            } else {
                let (port2, ok) = deliver_val(port, stack.last());
                if ok {
                    with_emits(
                        seq![stack.last()],
                        run_from(f2, code, pc + 1, stack.drop_last(), env, port2),
                    )
                } else {
                    out_fault(env, port2, Fault::Rejected)
                }
            },
            InstrS::Case(pats, t) => if pats.len() > stack.len() {
                out_fault(env, port, Fault::StackUnderflow)
            } else if t > code.len() {
                out_fault(env, port, Fault::ShapeInvariant)
            } else {
                let po = run_patterns(f2, pats, stack, env, port);
                match po.verdict {
                    Ok(matched) => with_emits(
                        po.emitted,
                        run_from(
                            f2,
                            code,
                            if matched {
                                pc + 1
                            } else {
                                t
                            },
                            po.stack,
                            po.env,
                            po.port,
                        ),
                    ),
                    Err(f) => RunOutcome {
                        env: po.env,
                        port: po.port,
                        emitted: po.emitted,
                        result: Err(f),
                    },
                }
            },
            _ => match apply_instr_op(ins, stack) {
                Ok(st2) => run_from(f2, code, pc + 1, st2, env, port),
                Err(f) => out_fault(env, port, f),
            },
        }
    }
}

/// Matching a pattern list against the stack, top down. A bind pattern
/// pops one value and stores it; a value pattern pops one value, runs its
/// nested code against the same environment, and requires structural
/// equality with the squashed result; a wildcard discards one value, or
/// nothing when the stack is empty. The first mismatch ends the matching
/// with a `false` verdict; the patterns already applied keep their
/// effects.
pub open spec fn run_patterns(
    fuel: nat,
    pats: Seq<PatS>,
    stack: Seq<ValS>,
    env: EnvS,
    port: ListenerS,
) -> PatsOutcome
    decreases fuel, 2nat, pats.len(),
{
    if pats.len() == 0 {
        PatsOutcome { stack, env, port, emitted: Seq::empty(), verdict: Ok(true) }
    } else {
        match pats.first() {
            PatS::Var(name) => if stack.len() == 0 {
                PatsOutcome { stack, env, port, emitted: Seq::empty(), verdict: Err(Fault::StackUnderflow) }
            } else {
                run_patterns(
                    fuel,
                    pats.drop_first(),
                    stack.drop_last(),
                    env.insert(name, stack.last()),
                    port,
                )
            },
            PatS::Unused => if stack.len() == 0 {
                run_patterns(fuel, pats.drop_first(), stack, env, port)
            } else {
                run_patterns(fuel, pats.drop_first(), stack.drop_last(), env, port)
            },
            PatS::Val(c) => if stack.len() == 0 {
                PatsOutcome { stack, env, port, emitted: Seq::empty(), verdict: Err(Fault::StackUnderflow) }
            } else {
                let inner = run(fuel, c, env, port);
                match inner.result {
                    Ok(vals) => if vals_eq(stack.last(), squash_values(vals)) {
                        let rest = run_patterns(
                            fuel,
                            pats.drop_first(),
                            stack.drop_last(),
                            inner.env,
                            inner.port,
                        );
                        PatsOutcome {
                            stack: rest.stack,
                            env: rest.env,
                            port: rest.port,
                            emitted: inner.emitted + rest.emitted,
                            verdict: rest.verdict,
                        }
                    } else {
                        PatsOutcome {
                            stack: stack.drop_last(),
                            env: inner.env,
                            port: inner.port,
                            emitted: inner.emitted,
                            verdict: Ok(false),
                        }
                    },
                    Err(f) => PatsOutcome {
                        stack: stack.drop_last(),
                        env: inner.env,
                        port: inner.port,
                        emitted: inner.emitted,
                        verdict: Err(f),
                    },
                }
            },
        }
    }
}

/// The value of a finished block, as `squash_values` states it: the empty
/// tuple for no results, the sole result itself, a tuple of the results
/// in order otherwise.
pub fn return_vector_to_tuple(v: Vec<VarV>) -> (r: VarV)
    ensures
        val_model(r) == squash_values(vals_model(v@)),
{
    if v.len() == 0 {
        let r = VarV::Tuple(Vec::new());
        proof {
            assert(vals_model(v@) =~= Seq::<ValS>::empty());
            assert(val_model(r) == ValS::Tuple(vals_model(Seq::<VarV>::empty())));
            assert(vals_model(Seq::<VarV>::empty()) =~= Seq::<ValS>::empty());
        }
        r
    } else if v.len() == 1 {
        let r = clone_value(&v[0]);
        proof {
            assert(vals_model(v@)[0] == val_model(v@[0]));
        }
        r
    } else {
        VarV::Tuple(v)
    }
}

/// Applies one operator opcode to the operand stack, as `apply_instr_op`
/// states it: the result replaces the operands on success; on a fault the
/// stack is abandoned, as the fault ends the whole run.
pub fn do_operation(stack: &mut Vec<VarV>, operation: &IR) -> (r: Result<(), Fault>)
    requires
        is_op_instr(instr_model(*operation)),
    ensures
        match r {
            Ok(_) => apply_instr_op(instr_model(*operation), vals_model(old(stack)@)) == Ok::<
                Seq<ValS>,
                Fault,
            >(vals_model(final(stack)@)),
            Err(f) => apply_instr_op(instr_model(*operation), vals_model(old(stack)@)) == Err::<
                Seq<ValS>,
                Fault,
            >(f),
        },
{
    let ghost stack0 = vals_model(old(stack)@);
    let a = match stack.pop() {
        Some(v) => v,
        None => {
            return Err(Fault::StackUnderflow);
        },
    };
    proof {
        assert(val_model(a) == stack0.last());
        assert(vals_model(stack@) =~= stack0.drop_last());
    }
    if let IR::Not = operation {
        match value_not(&a) {
            Ok(v) => {
                stack.push(v);
                proof {
                    assert(vals_model(stack@) =~= stack0.drop_last().push(val_model(v)));
                }
                return Ok(());
            },
            Err(f) => {
                return Err(f);
            },
        }
    }
    let b = match stack.pop() {
        Some(v) => v,
        None => {
            return Err(Fault::StackUnderflow);
        },
    };
    proof {
        assert(val_model(b) == stack0[stack0.len() - 2]);
        assert(vals_model(stack@) =~= stack0.drop_last().drop_last());
    }
    let res = match operation {
        IR::BinExpr(action) => match action {
            ActionV::Add => value_add(&b, &a),
            ActionV::Sub => value_sub(&b, &a),
            ActionV::Mul => value_mul(&b, &a),
            ActionV::Div => value_div(&b, &a),
            ActionV::Mod => value_rem(&b, &a),
            _ => Err(Fault::TypeMismatch),
        },
        IR::Or => value_or(&b, &a),
        IR::And => value_and(&b, &a),
        IR::Eql => value_cmp(ComparsionV::Equal, &b, &a),
        IR::NEql => value_cmp(ComparsionV::NotEqual, &b, &a),
        IR::Ls => value_cmp(ComparsionV::Less, &b, &a),
        IR::Gt => value_cmp(ComparsionV::Greater, &b, &a),
        IR::LsEql => value_cmp(ComparsionV::LessOrEqual, &b, &a),
        IR::GtEql => value_cmp(ComparsionV::GreaterOrEqual, &b, &a),
        _ => Err(Fault::TypeMismatch),
    };
    match res {
        Ok(v) => {
            stack.push(v);
            proof {
                assert(vals_model(stack@) =~= stack0.drop_last().drop_last().push(val_model(v)));
            }
            Ok(())
        },
        Err(f) => Err(f),
    }
}

/// The model of the machine's result: a final stack is modelled
/// elementwise, a fault kept.
pub open spec fn run_result_model(r: Result<Vec<VarV>, Fault>) -> Result<Seq<ValS>, Fault> {
    match r {
        Ok(vals) => Ok(vals_model(vals@)),
        Err(f) => Err(f),
    }
}


/// A value-producing block with exactly one result evaluates to exactly
/// that result, for every value of every tag.
pub proof fn lemma_single_value_block(v: ValS)
    ensures
        squash_values(seq![v]) == v,
{
}

/// A value-producing block with zero or with two or more results
/// evaluates to the tuple of those results, in order; with none, to the
/// empty tuple.
pub proof fn lemma_tuple_block(vals: Seq<ValS>)
    requires
        vals.len() != 1,
    ensures
        squash_values(vals) == ValS::Tuple(vals),
{
    if vals.len() == 0 {
        assert(vals =~= Seq::<ValS>::empty());
    }
}

/// Whether an instruction pushes a literal value and touches nothing
/// else.
pub open spec fn is_literal_push(ins: InstrS) -> bool {
    ins is Num || ins is Bool
}

/// The value a literal instruction pushes.
pub open spec fn literal_value(ins: InstrS) -> ValS {
    match ins {
        InstrS::Num(n) => ValS::Num(n),
        InstrS::Bool(b) => ValS::Bool(b),
        _ => ValS::Num(0),
    }
}

/// Running code made of literal pushes, from any point on, extends the
/// stack by exactly the remaining literals' values, in instruction order,
/// and changes nothing else.
pub proof fn lemma_literal_run_from(
    fuel: nat,
    code: Seq<InstrS>,
    pc: int,
    stack: Seq<ValS>,
    env: EnvS,
    port: ListenerS,
)
    requires
        0 <= pc <= code.len(),
        fuel >= code.len() - pc,
        forall|i: int| 0 <= i < code.len() ==> is_literal_push(#[trigger] code[i]),
    ensures
        run_from(fuel, code, pc, stack, env, port) == out_halt(
            env,
            port,
            stack + Seq::new((code.len() - pc) as nat, |i: int| literal_value(code[pc + i])),
        ),
    decreases code.len() - pc,
{
    if pc >= code.len() {
        assert(stack + Seq::new(0, |i: int| literal_value(code[pc + i])) =~= stack);
    } else {
        let v = literal_value(code[pc]);
        lemma_literal_run_from((fuel - 1) as nat, code, pc + 1, stack.push(v), env, port);
        assert(stack.push(v) + Seq::new((code.len() - pc - 1) as nat, |i: int| literal_value(code[pc + 1 + i]))
            =~= stack + Seq::new((code.len() - pc) as nat, |i: int| literal_value(code[pc + i])));
    }
}

/// A block of literal statements evaluates to exactly their values, in
/// statement order: with one statement, to that statement's value; with
/// any other count, to the tuple of the values in order.
pub proof fn lemma_literal_block_order(fuel: nat, code: Seq<InstrS>, env: EnvS, port: ListenerS)
    requires
        fuel >= code.len(),
        forall|i: int| 0 <= i < code.len() ==> is_literal_push(#[trigger] code[i]),
    ensures
        run(fuel, code, env, port) == out_halt(
            env,
            port,
            Seq::new(code.len(), |i: int| literal_value(code[i])),
        ),
        squash_values(Seq::new(code.len(), |i: int| literal_value(code[i]))) == (if code.len() == 1 {
            literal_value(code[0])
        } else {
            ValS::Tuple(Seq::new(code.len(), |i: int| literal_value(code[i])))
        }),
{
    lemma_literal_run_from(fuel, code, 0, Seq::empty(), env, port);
    assert(Seq::<ValS>::empty() + Seq::new(code.len(), |i: int| literal_value(code[0 + i]))
        =~= Seq::new(code.len(), |i: int| literal_value(code[i])));
}

/// Invoking a procedure by name runs its code against the environment as
/// it stands at the call — dynamic scope, not a closure — and splices all
/// of its results onto the caller's stack: a binding changed between two
/// invocations is seen by the second one.
pub proof fn lemma_exec_dynamic_scope(
    fuel: nat,
    name: Seq<char>,
    c: Seq<InstrS>,
    env: EnvS,
    port: ListenerS,
)
    requires
        fuel >= 1,
        env.contains_key(name),
        env[name] == ValS::Procedure(c),
    ensures
        ({
            let inner = run((fuel - 1) as nat, c, env, port);
            run(fuel, seq![InstrS::Exe(name)], env, port) == RunOutcome {
                env: inner.env,
                port: inner.port,
                emitted: inner.emitted,
                result: inner.result,
            }
        }),
{
    let code = seq![InstrS::Exe(name)];
    let inner = run((fuel - 1) as nat, c, env, port);
    match inner.result {
        Ok(vals) => {
            assert(Seq::<ValS>::empty() + vals =~= vals);
            assert(inner.emitted + Seq::<ValS>::empty() =~= inner.emitted);
            assert(run_from((fuel - 1) as nat, code, 1, Seq::empty() + vals, inner.env, inner.port)
                == out_halt(inner.env, inner.port, vals));
        },
        Err(_) => {},
    }
}

/// Loading an unbound name always raises the unbound-name fault — never a
/// default value — whatever the fuel, the surrounding state or the run:
/// the interpreter is a function of its inputs, so two runs of the same
/// program from the same state are one and the same outcome.
pub proof fn lemma_load_unbound_faults(fuel: nat, name: Seq<char>, env: EnvS, port: ListenerS)
    requires
        fuel >= 1,
        !env.contains_key(name),
    ensures
        run(fuel, seq![InstrS::Load(name)], env, port).result == Err::<Seq<ValS>, Fault>(
            Fault::UnboundName,
        ),
{
}

/// The guard an `if` compiles to falls through exactly when the stack top
/// is the boolean true, consuming it; on any other value it reports a
/// mismatch, which sends the machine to the guard's fail target without
/// touching the instructions in between. The environment and the port are
/// untouched either way.
pub proof fn lemma_if_guard_dispatch(fuel: nat, stack: Seq<ValS>, env: EnvS, port: ListenerS)
    requires
        fuel >= 1,
        stack.len() >= 1,
    ensures
        ({
            let po = run_patterns(fuel, crate::ir::if_guard_pattern(), stack, env, port);
            &&& po.verdict == Ok::<bool, Fault>(vals_eq(stack.last(), ValS::Bool(true)))
            &&& po.stack == stack.drop_last()
            &&& po.env == env
            &&& po.port == port
            &&& po.emitted == Seq::<ValS>::empty()
        }),
{
    let pats = crate::ir::if_guard_pattern();
    let c = seq![InstrS::Bool(true)];
    lemma_literal_block_order(fuel, c, env, port);
    assert(run(fuel, c, env, port).result == Ok::<Seq<ValS>, Fault>(
        Seq::new(1, |i: int| literal_value(c[i])),
    ));
    assert(Seq::new(1, |i: int| literal_value(c[i])) =~= seq![ValS::Bool(true)]);
    assert(squash_values(seq![ValS::Bool(true)]) == ValS::Bool(true));
    if vals_eq(stack.last(), ValS::Bool(true)) {
        assert(run_patterns(fuel, pats.drop_first(), stack.drop_last(), env, port).verdict
            == Ok::<bool, Fault>(true));
        assert(run(fuel, c, env, port).emitted + Seq::<ValS>::empty() =~= Seq::<ValS>::empty());
    }
}

/// Prepending no emissions changes nothing.
proof fn lemma_with_emits_empty(o: RunOutcome)
    ensures
        with_emits(Seq::empty(), o) == o,
{
    assert(Seq::<ValS>::empty() + o.emitted =~= o.emitted);
}

/// Matches a pattern list against the stack, as `run_patterns` states it:
/// the verdict says whether every pattern matched; binds, discards and
/// nested evaluations keep their effects on the environment, the port and
/// the emissions either way. On a fault the stack is abandoned, as the
/// fault ends the whole run.
#[verifier::loop_isolation(false)]
#[verifier::rlimit(100)]
pub fn match_patterns(
    pats: &Vec<MatchPattern>,
    stack: &mut Vec<VarV>,
    heap: &mut Environment,
    port: &mut FlowListener,
    streamer: &crate::types::FlowStreamer,
    emitted: &mut Vec<VarV>,
    fuel: u64,
) -> (r: Result<bool, Fault>)
    ensures
        ({
            let po = run_patterns(
                fuel as nat,
                pats_model(pats@),
                vals_model(old(stack)@),
                env_model(*old(heap)),
                listener_model(*old(port)),
            );
            &&& env_model(*final(heap)) == po.env
            &&& listener_model(*final(port)) == po.port
            &&& vals_model(final(emitted)@) == vals_model(old(emitted)@) + po.emitted
            &&& match r {
                Ok(m) => po.verdict == Ok::<bool, Fault>(m) && vals_model(final(stack)@)
                    == po.stack,
                Err(f) => po.verdict == Err::<bool, Fault>(f),
            }
        }),
    decreases fuel, 3nat,
{
    let ghost pm = pats_model(pats@);
    let ghost target = run_patterns(
        fuel as nat,
        pm,
        vals_model(stack@),
        env_model(*heap),
        listener_model(*port),
    );
    let ghost emitted0 = vals_model(emitted@);
    let ghost mut pre: Seq<ValS> = Seq::empty();
    let mut i: usize = 0;
    proof {
        assert(pm.skip(0) =~= pm);
        assert(emitted0 + pre =~= emitted0);
    }
    while i < pats.len()
        invariant
            i <= pats@.len(),
            vals_model(emitted@) == emitted0 + pre,
            ({
                let cur = run_patterns(
                    fuel as nat,
                    pm.skip(i as int),
                    vals_model(stack@),
                    env_model(*heap),
                    listener_model(*port),
                );
                &&& target.env == cur.env
                &&& target.port == cur.port
                &&& target.verdict == cur.verdict
                &&& target.stack == cur.stack
                &&& target.emitted == pre + cur.emitted
            }),
        decreases pats@.len() - i,
    {
        let ghost rem = pm.skip(i as int);
        let ghost st_it = vals_model(stack@);
        let ghost env_it = env_model(*heap);
        let ghost port_it = listener_model(*port);
        proof {
            assert(rem.first() == pat_model(pats@[i as int]));
            assert(rem.drop_first() =~= pm.skip(i as int + 1));
        }
        match &pats[i] {
            MatchPattern::Var(name) => {
                match stack.pop() {
                    Some(v) => {
                        proof {
                            assert(val_model(v) == st_it.last());
                            assert(vals_model(stack@) =~= st_it.drop_last());
                        }
                        heap.assign_var(name.clone(), v);
                    },
                    None => {
                        return Err(Fault::StackUnderflow);
                    },
                }
            },
            MatchPattern::Unused => {
                let popped = stack.pop();
                proof {
                    if st_it.len() > 0 {
                        assert(vals_model(stack@) =~= st_it.drop_last());
                    } else {
                        assert(vals_model(stack@) =~= st_it);
                    }
                }
            },
            MatchPattern::Val(c) => {
                let top = match stack.pop() {
                    Some(v) => v,
                    None => {
                        return Err(Fault::StackUnderflow);
                    },
                };
                proof {
                    assert(val_model(top) == st_it.last());
                    assert(vals_model(stack@) =~= st_it.drop_last());
                }
                let ghost inner = run(fuel as nat, code_model(c@), env_it, port_it);
                let sub = execute(c, heap, port, streamer, emitted, fuel);
                match sub {
                    Ok(vals) => {
                        let expected = return_vector_to_tuple(vals);
                        if value_eq(&top, &expected) {
                            proof {
                                let pre_old = pre;
                                pre = pre + inner.emitted;
                                assert(vals_model(emitted@) =~= emitted0 + pre);
                                let rest = run_patterns(
                                    fuel as nat,
                                    pm.skip(i as int + 1),
                                    vals_model(stack@),
                                    env_model(*heap),
                                    listener_model(*port),
                                );
                                assert(pre_old + (inner.emitted + rest.emitted) =~= pre
                                    + rest.emitted);
                            }
                        } else {
                            proof {
                                pre = pre + inner.emitted;
                                assert(vals_model(emitted@) =~= emitted0 + pre);
                                assert(target.emitted =~= pre);
                            }
                            return Ok(false);
                        }
                    },
                    Err(f) => {
                        proof {
                            pre = pre + inner.emitted;
                            assert(vals_model(emitted@) =~= emitted0 + pre);
                            assert(target.emitted =~= pre);
                        }
                        return Err(f);
                    },
                }
            },
        }
        i += 1;
    }
    proof {
        assert(pm.skip(pats@.len() as int) =~= Seq::<PatS>::empty());
        assert(target.emitted =~= pre);
    }
    Ok(true)
}

/// Whether the machine goes on after a step or has halted normally.
enum StepFlow {
    More,
    Done,
}

/// Executes the one instruction at `*index`, which must be in range, with
/// `fr` units of fuel left (at least one): the machine state before the
/// step, run with `fr` units, is the values this step emits followed by
/// the machine state after it, run with one unit less — or the halt or
/// the fault that this instruction causes. The ghost result carries the
/// values emitted during the step.
#[verifier::rlimit(100)]
#[verifier::spinoff_prover]
fn step(
    ir: &Vec<IR>,
    index: &mut usize,
    stack: &mut Vec<VarV>,
    heap: &mut Environment,
    port: &mut FlowListener,
    streamer: &crate::types::FlowStreamer,
    emitted: &mut Vec<VarV>,
    fr: u64,
) -> (r: (Result<StepFlow, Fault>, Ghost<Seq<ValS>>))
    requires
        *old(index) < ir@.len(),
        fr >= 1,
    ensures
        ({
            let d = r.1@;
            let cur0 = run_from(
                fr as nat,
                code_model(ir@),
                *old(index) as int,
                vals_model(old(stack)@),
                env_model(*old(heap)),
                listener_model(*old(port)),
            );
            &&& vals_model(final(emitted)@) == vals_model(old(emitted)@) + d
            &&& match r.0 {
                Ok(StepFlow::More) => *final(index) <= ir@.len() && cur0 == with_emits(
                    d,
                    run_from(
                        (fr - 1) as nat,
                        code_model(ir@),
                        *final(index) as int,
                        vals_model(final(stack)@),
                        env_model(*final(heap)),
                        listener_model(*final(port)),
                    ),
                ),
                Ok(StepFlow::Done) => cur0 == with_emits(
                    d,
                    out_halt(
                        env_model(*final(heap)),
                        listener_model(*final(port)),
                        vals_model(final(stack)@),
                    ),
                ),
                Err(f) => cur0 == RunOutcome {
                    env: env_model(*final(heap)),
                    port: listener_model(*final(port)),
                    emitted: d,
                    result: Err(f),
                },
            }
        }),
    decreases fr, 1nat,
{
    let ghost code = code_model(ir@);
    let ghost stack0 = vals_model(stack@);
    let ghost env0 = env_model(*heap);
    let ghost port0 = listener_model(*port);
    let ghost cur0 = run_from(fr as nat, code, *index as int, stack0, env0, port0);
    let ghost f2 = (fr - 1) as nat;
    let n = ir.len();
    proof {
        assert(n == ir@.len());
        assert(code[*index as int] == instr_model(ir@[*index as int]));
        assert(vals_model(emitted@) + Seq::<ValS>::empty() =~= vals_model(emitted@));
    }
    let i = *index;
    match &ir[i] {
        IR::Nil => {
            *index = i + 1;
            proof {
                lemma_with_emits_empty(cur0);
            }
            (Ok(StepFlow::More), Ghost(Seq::empty()))
        },
        IR::Num(n) => {
            stack.push(VarV::Num(*n));
            *index = i + 1;
            proof {
                assert(vals_model(stack@) =~= stack0.push(ValS::Num(*n)));
                lemma_with_emits_empty(cur0);
            }
            (Ok(StepFlow::More), Ghost(Seq::empty()))
        },
        IR::Bool(b) => {
            stack.push(VarV::Bool(*b));
            *index = i + 1;
            proof {
                assert(vals_model(stack@) =~= stack0.push(ValS::Bool(*b)));
                lemma_with_emits_empty(cur0);
            }
            (Ok(StepFlow::More), Ghost(Seq::empty()))
        },
        IR::Code(c) => {
            stack.push(VarV::Procedure(clone_code(c)));
            *index = i + 1;
            proof {
                assert(vals_model(stack@) =~= stack0.push(ValS::Procedure(code_model(c@))));
                lemma_with_emits_empty(cur0);
            }
            (Ok(StepFlow::More), Ghost(Seq::empty()))
        },
        IR::Store(name) => {
            match stack.pop() {
                Some(value) => {
                    proof {
                        assert(val_model(value) == stack0.last());
                        assert(vals_model(stack@) =~= stack0.drop_last());
                    }
                    heap.assign_var(name.clone(), value);
                    *index = i + 1;
                    proof {
                        lemma_with_emits_empty(cur0);
                    }
                    (Ok(StepFlow::More), Ghost(Seq::empty()))
                },
                None => (Err(Fault::StackUnderflow), Ghost(Seq::empty())),
            }
        },
        IR::Load(name) => {
            match heap.look_up_element(name.as_str()) {
                Some(v) => {
                    let loaded = clone_value(v);
                    stack.push(loaded);
                    *index = i + 1;
                    proof {
                        assert(vals_model(stack@) =~= stack0.push(env0[name@]));
                        lemma_with_emits_empty(cur0);
                    }
                    (Ok(StepFlow::More), Ghost(Seq::empty()))
                },
                None => (Err(Fault::UnboundName), Ghost(Seq::empty())),
            }
        },
        IR::Jump(t) => {
            if *t > ir.len() {
                proof {
                    lemma_with_emits_empty(cur0);
                }
                (Ok(StepFlow::Done), Ghost(Seq::empty()))
            } else {
                *index = *t;
                proof {
                    lemma_with_emits_empty(cur0);
                }
                (Ok(StepFlow::More), Ghost(Seq::empty()))
            }
        },
        IR::Exe(name) => {
            let code2 = match heap.look_up_element(name.as_str()) {
                Some(v) => match v {
                    VarV::Procedure(c) => clone_code(c),
                    _ => {
                        return (Err(Fault::TypeMismatch), Ghost(Seq::empty()));
                    },
                },
                None => {
                    return (Err(Fault::UnboundName), Ghost(Seq::empty()));
                },
            };
            let ghost inner = run(f2, code_model(code2@), env0, port0);
            match execute(&code2, heap, port, streamer, emitted, fr - 1) {
                Ok(mut vals) => {
                    proof {
                        assert(vals_model(stack@ + vals@) =~= stack0 + vals_model(vals@));
                    }
                    stack.append(&mut vals);
                    *index = i + 1;
                    (Ok(StepFlow::More), Ghost(inner.emitted))
                },
                Err(fault) => (Err(fault), Ghost(inner.emitted)),
            }
        },
        IR::Define(name, c) => {
            heap.assign_var(name.clone(), VarV::Procedure(clone_code(c)));
            *index = i + 1;
            proof {
                lemma_with_emits_empty(cur0);
            }
            (Ok(StepFlow::More), Ghost(Seq::empty()))
        },
        IR::Efine(c) => {
            let ghost inner = run(f2, code_model(c@), env0, port0);
            match execute(c, heap, port, streamer, emitted, fr - 1) {
                Ok(mut vals) => {
                    proof {
                        assert(vals_model(stack@ + vals@) =~= stack0 + vals_model(vals@));
                    }
                    stack.append(&mut vals);
                    *index = i + 1;
                    (Ok(StepFlow::More), Ghost(inner.emitted))
                },
                Err(fault) => (Err(fault), Ghost(inner.emitted)),
            }
        },
        IR::Input => {
            stack.push(streamer.send());
            *index = i + 1;
            proof {
                assert(vals_model(stack@) =~= stack0.push(ValS::Num(0)));
                lemma_with_emits_empty(cur0);
            }
            (Ok(StepFlow::More), Ghost(Seq::empty()))
        },
        IR::Output => {
            match stack.pop() {
                Some(top) => {
                    proof {
                        assert(val_model(top) == stack0.last());
                        assert(vals_model(stack@) =~= stack0.drop_last());
                    }
                    let ok = port.get(&top);
                    if ok {
                        let ghost v = val_model(top);
                        let ghost dd = seq![v];
                        let ghost em_before = vals_model(emitted@);
                        emitted.push(top);
                        *index = i + 1;
                        proof {
                            assert(vals_model(emitted@) =~= em_before + dd);
                        }
                        (Ok(StepFlow::More), Ghost(dd))
                    } else {
                        (Err(Fault::Rejected), Ghost(Seq::empty()))
                    }
                },
                None => (Err(Fault::StackUnderflow), Ghost(Seq::empty())),
            }
        },
        IR::Case(pats, t) => {
            if pats.len() > stack.len() {
                return (Err(Fault::StackUnderflow), Ghost(Seq::empty()));
            }
            if *t > ir.len() {
                return (Err(Fault::ShapeInvariant), Ghost(Seq::empty()));
            }
            let ghost po = run_patterns(f2, pats_model(pats@), stack0, env0, port0);
            match match_patterns(pats, stack, heap, port, streamer, emitted, fr - 1) {
                Ok(matched) => {
                    if matched {
                        *index = i + 1;
                    } else {
                        *index = *t;
                    }
                    (Ok(StepFlow::More), Ghost(po.emitted))
                },
                Err(fault) => (Err(fault), Ghost(po.emitted)),
            }
        },
        _ => {
            let instruction = &ir[i];
            match do_operation(stack, instruction) {
                Ok(_) => {
                    *index = i + 1;
                    proof {
                        lemma_with_emits_empty(cur0);
                    }
                    (Ok(StepFlow::More), Ghost(Seq::empty()))
                },
                Err(fault) => (Err(fault), Ghost(Seq::empty())),
            }
        },
    }
}

/// Executes an instruction list against the shared environment and the
/// run's ports, with an explicit step budget, exactly as the interpreter
/// `run` states it: the final environment, port state, emitted values and
/// result — every value and every fault — are those of
/// `run(fuel, code, environment, port)`. Literals push themselves; a code
/// block pushes a procedure value; operators pop their operands in
/// right-then-left order; `Store` and `Load` write and read the
/// environment; `Exe` and the inline block run nested code against the
/// same environment, splicing all its results onto the caller's stack;
/// `Case` matches patterns and branches to its fail target on mismatch;
/// `Input` reads the input port; `Output` delivers to the output port and
/// faults if the port refuses. The run halts normally when the pointer
/// leaves the instruction list, with the operand stack as its result.
#[verifier::loop_isolation(false)]
#[verifier::rlimit(100)]
pub fn execute(
    ir: &Vec<IR>,
    heap: &mut Environment,
    port: &mut FlowListener,
    streamer: &crate::types::FlowStreamer,
    emitted: &mut Vec<VarV>,
    fuel: u64,
) -> (r: Result<Vec<VarV>, Fault>)
    ensures
        ({
            let o = run(
                fuel as nat,
                code_model(ir@),
                env_model(*old(heap)),
                listener_model(*old(port)),
            );
            &&& env_model(*final(heap)) == o.env
            &&& listener_model(*final(port)) == o.port
            &&& vals_model(final(emitted)@) == vals_model(old(emitted)@) + o.emitted
            &&& run_result_model(r) == o.result
        }),
    decreases fuel, 2nat,
{
    let ghost code = code_model(ir@);
    let ghost target = run(fuel as nat, code, env_model(*heap), listener_model(*port));
    let ghost emitted0 = vals_model(emitted@);
    let ghost mut pre: Seq<ValS> = Seq::empty();
    let mut stack: Vec<VarV> = Vec::new();
    let mut index: usize = 0;
    let mut f: u64 = fuel;
    proof {
        assert(vals_model(stack@) =~= Seq::<ValS>::empty());
        assert(emitted0 + pre =~= emitted0);
    }
    while index < ir.len()
        invariant
            index <= ir@.len(),
            f <= fuel,
            vals_model(emitted@) == emitted0 + pre,
            ({
                let cur = run_from(
                    f as nat,
                    code,
                    index as int,
                    vals_model(stack@),
                    env_model(*heap),
                    listener_model(*port),
                );
                &&& target.env == cur.env
                &&& target.port == cur.port
                &&& target.result == cur.result
                &&& target.emitted == pre + cur.emitted
            }),
        decreases f,
    {
        if f == 0 {
            return Err(Fault::StepLimit);
        }
        let (flow, Ghost(d)) = step(ir, &mut index, &mut stack, heap, port, streamer, emitted, f);
        proof {
            let pre_old = pre;
            pre = pre + d;
            assert(emitted0 + pre_old + d =~= emitted0 + pre);
            let cur1 = run_from(
                (f - 1) as nat,
                code,
                index as int,
                vals_model(stack@),
                env_model(*heap),
                listener_model(*port),
            );
            assert(pre_old + (d + cur1.emitted) =~= pre + cur1.emitted);
        }
        match flow {
            Ok(StepFlow::More) => (),
            Ok(StepFlow::Done) => {
                proof {
                    assert(target.emitted =~= pre);
                }
                return Ok(stack);
            },
            Err(fault) => {
                proof {
                    assert(target.emitted =~= pre);
                }
                return Err(fault);
            },
        }
        f = f - 1;
        proof {
            let cur = run_from(
                f as nat,
                code,
                index as int,
                vals_model(stack@),
                env_model(*heap),
                listener_model(*port),
            );
            assert(target.emitted =~= pre + cur.emitted);
        }
    }
    proof {
        assert(target.emitted =~= pre);
    }
    Ok(stack)
}

} // verus!
