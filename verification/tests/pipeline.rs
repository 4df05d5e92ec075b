//! End-to-end tests: source text through the lexer, the parser, the
//! lowering pass and the virtual machine, checked against an assertion
//! queue port.

use nqlang::environment::Environment;
use nqlang::ir::{ast_to_ir, MatchPattern, IR};
use nqlang::lexer::{tokenize_code, Vocabulary};
use nqlang::parser::parse_program;
use nqlang::types::{BlockV, Fault, FlowListener, FlowStreamer, Statement, StatementV, VarV};
use nqlang::vm::execute;

const FUEL: u64 = 1_000_000;

fn st(v: StatementV) -> Statement {
    Statement::new(Box::new(v))
}

/// Runs a source program with an assertion-queue output port seeded with
/// the expected values; the run must succeed and use the whole queue.
fn run_expect(src: &str, expected: Vec<VarV>) {
    let vocab = Vocabulary::new();
    let tokens = tokenize_code(src, &vocab).expect("tokenize");
    let tree = parse_program(&tokens).expect("parse");
    let mut ir: Vec<IR> = Vec::new();
    ast_to_ir(&tree, &mut ir);
    let mut env = Environment::new();
    let mut port = FlowListener::Asserter(expected);
    let streamer = FlowStreamer::Inert;
    let mut emitted: Vec<VarV> = Vec::new();
    let res = execute(&ir, &mut env, &mut port, &streamer, &mut emitted, FUEL);
    assert!(res.is_ok(), "run faulted: {:?}", res);
    match port {
        FlowListener::Asserter(q) => assert!(q.is_empty(), "values left unemitted: {:?}", q),
        _ => unreachable!(),
    }
}

/// Runs raw instructions and returns what the machine did.
fn run_ir(
    ir: Vec<IR>,
    env: &mut Environment,
    expected: Option<Vec<VarV>>,
) -> (Result<Vec<VarV>, Fault>, Vec<VarV>) {
    let mut port = match expected {
        Some(q) => FlowListener::Asserter(q),
        None => FlowListener::Inert,
    };
    let streamer = FlowStreamer::Inert;
    let mut emitted: Vec<VarV> = Vec::new();
    let res = execute(&ir, env, &mut port, &streamer, &mut emitted, FUEL);
    (res, emitted)
}

#[test]
fn test_fib() {
    run_expect(
        "# a 1. # b 1. { ~- a. # t a + b. # a b. # b t. ? (a << 22) ( -> |+ ). } .",
        vec![
            VarV::Num(1),
            VarV::Num(1),
            VarV::Num(2),
            VarV::Num(3),
            VarV::Num(5),
            VarV::Num(8),
            VarV::Num(13),
            VarV::Num(21),
        ],
    )
}

#[test]
fn test_math() {
    run_expect("~- 2 + 6 * 21.", vec![VarV::Num(128)]);
}

#[test]
fn test_if() {
    run_expect("? (1 >> 0) { ~- ==. }.", vec![VarV::Bool(true)]);
}

#[test]
fn test_operation_order() {
    run_expect("~- 3 * 100 + 4 * 10 + 5.", vec![VarV::Num(345)]);
}

#[test]
fn precedence_multiplicative_binds_tighter() {
    run_expect("~- 3 + 4 * 5.", vec![VarV::Num(23)]);
}

#[test]
fn precedence_parentheses_override() {
    run_expect("~- (3 + 4) * 5.", vec![VarV::Num(35)]);
}

#[test]
fn if_else_true_takes_then() {
    run_expect("? (1 >> 0) { ~- 10. } !- { ~- 20. }.", vec![VarV::Num(10)]);
}

#[test]
fn if_else_false_takes_else() {
    run_expect("? (0 >> 1) { ~- 10. } !- { ~- 20. }.", vec![VarV::Num(20)]);
}

#[test]
fn if_without_else_false_continues() {
    run_expect("? (0 >> 1) { ~- 10. }. ~- 7.", vec![VarV::Num(7)]);
}

#[test]
fn boolean_overload_through_source() {
    run_expect("~- == + !!.", vec![VarV::Bool(true)]);
}

#[test]
fn unary_not_negates() {
    // The unary minus takes the whole additive expression after it, since
    // it binds its operand at the additive priority.
    run_expect(
        "~- ! ==. ~- - 5 + 9.",
        vec![VarV::Bool(false), VarV::Num(-14)],
    );
}

#[test]
fn division_and_remainder() {
    run_expect("~- 17 / 5. ~- 17 % 5.", vec![VarV::Num(3), VarV::Num(2)]);
}

#[test]
fn case_pattern_true_falls_through() {
    // Stack top Bool(true) against the pattern [Val(Bool(true))]: the
    // guard matches and execution falls through to the output.
    let ir = vec![
        IR::Bool(true),
        IR::Case(vec![MatchPattern::Val(vec![IR::Bool(true)])], 4),
        IR::Num(10),
        IR::Output,
    ];
    let mut env = Environment::new();
    let (res, emitted) = run_ir(ir, &mut env, None);
    assert!(res.is_ok());
    assert!(emitted.len() == 1 && emitted[0] == VarV::Num(10));
}

#[test]
fn case_pattern_false_jumps_to_fail_target() {
    // Stack top Bool(false): the guard mismatches and the machine jumps
    // straight to the fail target, executing nothing in between.
    let ir = vec![
        IR::Bool(false),
        IR::Case(vec![MatchPattern::Val(vec![IR::Bool(true)])], 4),
        IR::Num(10),
        IR::Output,
    ];
    let mut env = Environment::new();
    let (res, emitted) = run_ir(ir, &mut env, None);
    assert!(res.is_ok());
    assert!(emitted.is_empty());
}

#[test]
fn case_var_binds_and_unused_discards() {
    let ir = vec![
        IR::Num(1),
        IR::Num(2),
        IR::Case(
            vec![MatchPattern::Var(String::from("x")), MatchPattern::Unused],
            5,
        ),
        IR::Load(String::from("x")),
        IR::Output,
    ];
    let mut env = Environment::new();
    let (res, emitted) = run_ir(ir, &mut env, None);
    assert!(res.is_ok());
    // The bind pattern pops the top of the stack, which is the 2.
    assert!(emitted.len() == 1 && emitted[0] == VarV::Num(2));
}

#[test]
fn single_statement_block_value_is_the_value() {
    // A value-producing block of one statement evaluates to exactly that
    // statement's value: the pattern [Num(5)] matches a stack top of 5.
    let mut env = Environment::new();
    env.construct_element(String::from("v"), VarV::Num(5));
    let ir = vec![
        IR::Load(String::from("v")),
        IR::Case(vec![MatchPattern::Val(vec![IR::Num(5)])], 4),
        IR::Num(1),
        IR::Output,
    ];
    let (res, emitted) = run_ir(ir, &mut env, None);
    assert!(res.is_ok());
    assert!(emitted.len() == 1 && emitted[0] == VarV::Num(1));
}

#[test]
fn multi_statement_block_value_is_tuple_in_order() {
    // A value-producing block of two statements evaluates to the tuple of
    // their values in statement order.
    let mut env = Environment::new();
    env.construct_element(
        String::from("t"),
        VarV::Tuple(vec![VarV::Num(1), VarV::Num(2)]),
    );
    let ir = vec![
        IR::Load(String::from("t")),
        IR::Case(vec![MatchPattern::Val(vec![IR::Num(1), IR::Num(2)])], 4),
        IR::Num(9),
        IR::Output,
    ];
    let (res, emitted) = run_ir(ir, &mut env, None);
    assert!(res.is_ok());
    assert!(emitted.len() == 1 && emitted[0] == VarV::Num(9));
    // Order matters: the reversed tuple must not match.
    let mut env2 = Environment::new();
    env2.construct_element(
        String::from("t"),
        VarV::Tuple(vec![VarV::Num(2), VarV::Num(1)]),
    );
    let ir2 = vec![
        IR::Load(String::from("t")),
        IR::Case(vec![MatchPattern::Val(vec![IR::Num(1), IR::Num(2)])], 4),
        IR::Num(9),
        IR::Output,
    ];
    let (res2, emitted2) = run_ir(ir2, &mut env2, None);
    assert!(res2.is_ok());
    assert!(emitted2.is_empty());
}

#[test]
fn empty_block_value_is_empty_tuple() {
    let mut env = Environment::new();
    env.construct_element(String::from("e"), VarV::Tuple(vec![]));
    let ir = vec![
        IR::Load(String::from("e")),
        IR::Case(vec![MatchPattern::Val(vec![])], 4),
        IR::Num(3),
        IR::Output,
    ];
    let (res, emitted) = run_ir(ir, &mut env, None);
    assert!(res.is_ok());
    assert!(emitted.len() == 1 && emitted[0] == VarV::Num(3));
}

#[test]
fn procedure_roundtrip_sees_mutated_environment() {
    // Define a procedure, invoke it, rebind a name it reads, invoke it
    // again: the second invocation sees the new binding (dynamic scope).
    let ir = vec![
        IR::Define(String::from("p"), vec![IR::Load(String::from("x"))]),
        IR::Num(1),
        IR::Store(String::from("x")),
        IR::Exe(String::from("p")),
        IR::Output,
        IR::Num(2),
        IR::Store(String::from("x")),
        IR::Exe(String::from("p")),
        IR::Output,
    ];
    let mut env = Environment::new();
    let (res, _) = run_ir(
        ir,
        &mut env,
        Some(vec![VarV::Num(1), VarV::Num(2)]),
    );
    assert!(res.is_ok());
}

#[test]
fn call_statement_invokes_procedure_against_shared_environment() {
    // define p as the storage block [x]; set x to 1; emit p(); set x to
    // 2; emit p() — the two calls see the two bindings.
    let tree = st(StatementV::Block(
        vec![
            st(StatementV::Define {
                link: st(StatementV::Block(
                    vec![st(StatementV::Name(String::from("x")))],
                    BlockV::Storage,
                )),
                like: String::from("p"),
            }),
            st(StatementV::SetName {
                name: String::from("x"),
                value: st(StatementV::Number(1)),
            }),
            st(StatementV::Out {
                expr: st(StatementV::Call(
                    st(StatementV::Name(String::from("p"))),
                    st(StatementV::Nil),
                )),
            }),
            st(StatementV::SetName {
                name: String::from("x"),
                value: st(StatementV::Number(2)),
            }),
            st(StatementV::Out {
                expr: st(StatementV::Call(
                    st(StatementV::Name(String::from("p"))),
                    st(StatementV::Nil),
                )),
            }),
        ],
        BlockV::Evaluate,
    ));
    let mut ir: Vec<IR> = Vec::new();
    ast_to_ir(&tree, &mut ir);
    let mut env = Environment::new();
    let (res, _) = run_ir(ir, &mut env, Some(vec![VarV::Num(1), VarV::Num(2)]));
    assert!(res.is_ok(), "{:?}", res);
}

#[test]
fn load_of_unbound_name_always_faults() {
    // Fault determinism: the same program faults identically on repeated
    // runs and never produces a default value.
    for _ in 0..3 {
        let ir = vec![IR::Load(String::from("missing"))];
        let mut env = Environment::new();
        let (res, emitted) = run_ir(ir, &mut env, None);
        assert_eq!(res, Err(Fault::UnboundName));
        assert!(emitted.is_empty());
    }
}

#[test]
fn arithmetic_boolean_overload() {
    // Bool(true) + Bool(false) is the logical or.
    let ir = vec![IR::Bool(true), IR::Bool(false), IR::BinExpr(nqlang::types::ActionV::Add)];
    let mut env = Environment::new();
    let (res, _) = run_ir(ir, &mut env, None);
    let stack = res.expect("ok");
    assert!(stack.len() == 1 && stack[0] == VarV::Bool(true));
    // Num(3) + Num(4) is the sum.
    let ir = vec![IR::Num(3), IR::Num(4), IR::BinExpr(nqlang::types::ActionV::Add)];
    let mut env = Environment::new();
    let (res, _) = run_ir(ir, &mut env, None);
    let stack = res.expect("ok");
    assert!(stack.len() == 1 && stack[0] == VarV::Num(7));
    // Bool(true) + Num(1) is a fatal type mismatch.
    let ir = vec![IR::Bool(true), IR::Num(1), IR::BinExpr(nqlang::types::ActionV::Add)];
    let mut env = Environment::new();
    let (res, _) = run_ir(ir, &mut env, None);
    assert_eq!(res, Err(Fault::TypeMismatch));
}

#[test]
fn fault_stack_underflow() {
    let ir = vec![IR::BinExpr(nqlang::types::ActionV::Add)];
    let mut env = Environment::new();
    let (res, _) = run_ir(ir, &mut env, None);
    assert_eq!(res, Err(Fault::StackUnderflow));
}

#[test]
fn fault_shape_invariant_on_bad_case_target() {
    let ir = vec![
        IR::Num(1),
        IR::Case(vec![MatchPattern::Unused], 99),
    ];
    let mut env = Environment::new();
    let (res, _) = run_ir(ir, &mut env, None);
    assert_eq!(res, Err(Fault::ShapeInvariant));
}

#[test]
fn fault_case_underflow_on_long_pattern() {
    let ir = vec![IR::Case(vec![MatchPattern::Unused], 1)];
    let mut env = Environment::new();
    let (res, _) = run_ir(ir, &mut env, None);
    assert_eq!(res, Err(Fault::StackUnderflow));
}

#[test]
fn fault_rejected_on_wrong_expectation() {
    let ir = vec![IR::Num(1), IR::Output];
    let mut env = Environment::new();
    let (res, _) = run_ir(ir, &mut env, Some(vec![VarV::Num(2)]));
    assert_eq!(res, Err(Fault::Rejected));
}

#[test]
fn fault_arithmetic_on_division_by_zero() {
    let ir = vec![IR::Num(1), IR::Num(0), IR::BinExpr(nqlang::types::ActionV::Div)];
    let mut env = Environment::new();
    let (res, _) = run_ir(ir, &mut env, None);
    assert_eq!(res, Err(Fault::Arithmetic));
    let ir = vec![
        IR::Num(isize::MAX),
        IR::Num(1),
        IR::BinExpr(nqlang::types::ActionV::Add),
    ];
    let mut env = Environment::new();
    let (res, _) = run_ir(ir, &mut env, None);
    assert_eq!(res, Err(Fault::Arithmetic));
}

#[test]
fn fault_step_limit_on_endless_loop() {
    let vocab = Vocabulary::new();
    let tokens = tokenize_code("{ -> |+. }.", &vocab).expect("tokenize");
    let tree = parse_program(&tokens).expect("parse");
    let mut ir: Vec<IR> = Vec::new();
    ast_to_ir(&tree, &mut ir);
    let mut env = Environment::new();
    let mut port = FlowListener::Inert;
    let streamer = FlowStreamer::Inert;
    let mut emitted: Vec<VarV> = Vec::new();
    let res = execute(&ir, &mut env, &mut port, &streamer, &mut emitted, 10_000);
    assert_eq!(res, Err(Fault::StepLimit));
}

#[test]
fn fault_type_mismatch_on_ordering_booleans() {
    let ir = vec![IR::Bool(true), IR::Bool(false), IR::Ls];
    let mut env = Environment::new();
    let (res, _) = run_ir(ir, &mut env, None);
    assert_eq!(res, Err(Fault::TypeMismatch));
}

#[test]
fn input_port_reads_zero() {
    run_expect("~- ~+.", vec![VarV::Num(0)]);
}

#[test]
fn inline_block_splices_results() {
    // An evaluation block executes inline and splices every result onto
    // the caller's stack.
    let ir = vec![
        IR::Efine(vec![IR::Num(1), IR::Num(2)]),
        IR::Output,
        IR::Output,
    ];
    let mut env = Environment::new();
    let (res, _) = run_ir(ir, &mut env, Some(vec![VarV::Num(2), VarV::Num(1)]));
    assert!(res.is_ok());
}

#[test]
fn exec_of_non_procedure_faults() {
    let ir = vec![
        IR::Num(5),
        IR::Store(String::from("n")),
        IR::Exe(String::from("n")),
    ];
    let mut env = Environment::new();
    let (res, _) = run_ir(ir, &mut env, None);
    assert_eq!(res, Err(Fault::TypeMismatch));
}
