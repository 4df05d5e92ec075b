//! Unit tests of the lexer, the parser, the value model, the environment,
//! the lowering helpers and the byte stack.

use nqlang::bytecode::Stack;
use nqlang::environment::Environment;
use nqlang::ir::{ast_to_ir, generate_bytecode, if_fail_target, jump_over_else_target, IR};
use nqlang::lexer::{tokenize_code, Vocabulary};
use nqlang::parser::parse_program;
use nqlang::types::{
    value_add, value_cmp, value_div, value_eq, value_mul, value_not, ActionV, ComparsionV, Fault,
    Statement, StatementV, TokenV, VarV,
};

#[test]
fn lexer_classifies_tokens() {
    let vocab = Vocabulary::new();
    let toks = tokenize_code("name 42 + ( == ) ,.", &vocab).expect("tokenize");
    assert!(matches!(&toks[0], TokenV::Name(n) if n == "name"));
    assert!(matches!(toks[1], TokenV::Number(42)));
    assert!(matches!(toks[2], TokenV::Sign(1)));
    assert!(matches!(toks[3], TokenV::Brackets { id: 1, is_opened: true }));
    assert!(matches!(toks[4], TokenV::Bool(true)));
    assert!(matches!(toks[5], TokenV::Brackets { id: 1, is_opened: false }));
    assert!(matches!(toks[6], TokenV::Dot(true)));
    assert!(matches!(toks[7], TokenV::Dot(false)));
    assert!(matches!(toks[8], TokenV::EOF));
    assert_eq!(toks.len(), 9);
}

#[test]
fn lexer_keywords_become_marks() {
    let mut vocab = Vocabulary::new();
    vocab.keywords.insert(String::from("if"), 8);
    let toks = tokenize_code("if x", &vocab).expect("tokenize");
    assert!(matches!(toks[0], TokenV::Mark(8)));
    assert!(matches!(&toks[1], TokenV::Name(n) if n == "x"));
}

#[test]
fn lexer_symbol_followed_by_separator() {
    let vocab = Vocabulary::new();
    let toks = tokenize_code("5 +, 6", &vocab).expect("tokenize");
    assert!(matches!(toks[0], TokenV::Number(5)));
    assert!(matches!(toks[1], TokenV::Sign(1)));
    assert!(matches!(toks[2], TokenV::Dot(true)));
    assert!(matches!(toks[3], TokenV::Number(6)));
}

#[test]
fn lexer_rejects_unknown_symbol_run() {
    let vocab = Vocabulary::new();
    assert!(matches!(tokenize_code("===", &vocab), Err(Fault::Syntax)));
}

#[test]
fn lexer_rejects_number_overflow() {
    let vocab = Vocabulary::new();
    assert!(matches!(
        tokenize_code("99999999999999999999999999", &vocab),
        Err(Fault::Syntax)
    ));
}

#[test]
fn lexer_rejects_non_ascii() {
    let vocab = Vocabulary::new();
    assert!(matches!(tokenize_code("père", &vocab), Err(Fault::Syntax)));
}

#[test]
fn token_methods_classify_operators() {
    assert!(TokenV::Sign(1).is_operation());
    assert!(TokenV::Comparsion(3).is_operation());
    assert!(TokenV::Mark(7).is_operation());
    assert!(!TokenV::Mark(3).is_operation());
    assert!(!TokenV::EOF.is_operation());
    assert_eq!(TokenV::Sign(3).get_operation_priorety(), 6);
    assert_eq!(TokenV::Sign(1).get_operation_priorety(), 5);
    assert_eq!(TokenV::Comparsion(1).get_operation_priorety(), 4);
    assert_eq!(TokenV::Mark(1).get_operation_priorety(), 3);
    assert_eq!(TokenV::Mark(7).get_operation_priorety(), 2);
    assert_eq!(TokenV::Mark(9).get_operation_priorety(), 1);
    assert_eq!(TokenV::Sign(2).token_to_action_type(), ActionV::Sub);
    assert_eq!(TokenV::Mark(9).token_to_action_type(), ActionV::Or);
    assert_eq!(
        TokenV::Comparsion(6).token_to_comparsion_type(),
        ComparsionV::LessOrEqual
    );
    assert_eq!(TokenV::Number(12).get_int_value(), 12);
    assert_eq!(TokenV::Name(String::from("ab")).get_string_from_name(), "ab");
}

#[test]
fn parser_rejects_malformed_input() {
    let vocab = Vocabulary::new();
    // Unclosed bracket.
    let toks = tokenize_code("(1 + 2.", &vocab).expect("tokenize");
    assert!(matches!(parse_program(&toks), Err(Fault::Syntax)));
    // Missing separator before the end of the stream.
    let toks = tokenize_code("1 + 2", &vocab).expect("tokenize");
    assert!(matches!(parse_program(&toks), Err(Fault::Syntax)));
    // An operator in primary position.
    let toks = tokenize_code("* 3.", &vocab).expect("tokenize");
    assert!(matches!(parse_program(&toks), Err(Fault::Syntax)));
}

#[test]
fn parser_builds_left_associative_operations() {
    let vocab = Vocabulary::new();
    let toks = tokenize_code("1 - 2 - 3.", &vocab).expect("tokenize");
    let tree = parse_program(&toks).expect("parse");
    // ((1 - 2) - 3): the outer operation's right child is the literal 3.
    match &*tree.value {
        StatementV::Block(stmts, _) => match &*stmts[0].value {
            StatementV::OperationNumder(ActionV::Sub, left, right) => {
                assert!(matches!(*right.value, StatementV::Number(3)));
                assert!(matches!(
                    &*left.value,
                    StatementV::OperationNumder(ActionV::Sub, _, _)
                ));
            },
            other => panic!("unexpected tree: {:?}", other),
        },
        other => panic!("unexpected tree: {:?}", other),
    }
}

#[test]
fn parser_block_kind_follows_last_separator() {
    let vocab = Vocabulary::new();
    // An angle block keeps the kind its separators pick: a trailing comma
    // is value-producing, a trailing dot sequential.
    let toks = tokenize_code("~- <1,>.", &vocab).expect("tokenize");
    let tree = parse_program(&toks).expect("parse");
    match &*tree.value {
        StatementV::Block(stmts, _) => match &*stmts[0].value {
            StatementV::Out { expr } => {
                assert!(matches!(
                    &*expr.value,
                    StatementV::Block(_, nqlang::types::BlockV::Draft)
                ));
            },
            other => panic!("unexpected tree: {:?}", other),
        },
        other => panic!("unexpected tree: {:?}", other),
    }
}

#[test]
fn values_compare_structurally() {
    assert!(value_eq(&VarV::Num(3), &VarV::Num(3)));
    assert!(!value_eq(&VarV::Num(3), &VarV::Num(4)));
    assert!(!value_eq(&VarV::Num(1), &VarV::Bool(true)));
    assert!(value_eq(
        &VarV::Tuple(vec![VarV::Num(1), VarV::Bool(false)]),
        &VarV::Tuple(vec![VarV::Num(1), VarV::Bool(false)]),
    ));
    assert!(!value_eq(
        &VarV::Tuple(vec![VarV::Num(1)]),
        &VarV::Tuple(vec![VarV::Num(1), VarV::Num(2)]),
    ));
    // Procedures are never equal, not even to themselves.
    let p = VarV::Procedure(vec![IR::Num(1)]);
    assert!(!value_eq(&p, &p));
    assert!(p != p);
}

#[test]
fn value_operations_follow_the_rules() {
    assert_eq!(value_add(&VarV::Num(3), &VarV::Num(4)), Ok(VarV::Num(7)));
    assert_eq!(
        value_add(&VarV::Bool(true), &VarV::Bool(false)),
        Ok(VarV::Bool(true))
    );
    assert_eq!(
        value_add(&VarV::Bool(true), &VarV::Num(1)),
        Err(Fault::TypeMismatch)
    );
    assert_eq!(
        value_mul(&VarV::Bool(true), &VarV::Bool(false)),
        Ok(VarV::Bool(false))
    );
    assert_eq!(value_div(&VarV::Num(7), &VarV::Num(0)), Err(Fault::Arithmetic));
    assert_eq!(value_not(&VarV::Num(5)), Ok(VarV::Num(-5)));
    assert_eq!(value_not(&VarV::Bool(true)), Ok(VarV::Bool(false)));
    assert_eq!(
        value_not(&VarV::Tuple(vec![])),
        Err(Fault::TypeMismatch)
    );
    assert_eq!(
        value_cmp(ComparsionV::Less, &VarV::Num(2), &VarV::Num(3)),
        Ok(VarV::Bool(true))
    );
    assert_eq!(
        value_cmp(ComparsionV::Less, &VarV::Bool(false), &VarV::Bool(true)),
        Err(Fault::TypeMismatch)
    );
    assert_eq!(
        value_cmp(ComparsionV::Equal, &VarV::Num(1), &VarV::Bool(true)),
        Ok(VarV::Bool(false))
    );
}

#[test]
fn environment_binds_and_rebinds_freely() {
    let mut env = Environment::new();
    assert!(!env.contains_name("x"));
    assert!(env.look_up_element("x").is_none());
    env.construct_element(String::from("x"), VarV::Num(1));
    assert!(env.contains_name("x"));
    assert!(value_eq(env.look_up_element("x").unwrap(), &VarV::Num(1)));
    env.assign_var(String::from("x"), VarV::Num(2));
    assert!(value_eq(env.look_up_element("x").unwrap(), &VarV::Num(2)));
}

#[test]
fn statement_get_ast_deep_copies() {
    let s = Statement::new(Box::new(StatementV::Comparsion(
        ComparsionV::Equal,
        Statement::new(Box::new(StatementV::Number(1))),
        Statement::new(Box::new(StatementV::Bool(true))),
    )));
    let copy = s.get_ast();
    assert!(matches!(copy, StatementV::Comparsion(ComparsionV::Equal, _, _)));
}

#[test]
fn jump_target_helpers() {
    // The forward-jump arithmetic of the compiler, in its one shared
    // helper: the guard and the single branch instruction are skipped,
    // plus the jump over the then-branch when an else-branch follows.
    assert_eq!(if_fail_target(5, false), 7);
    assert_eq!(if_fail_target(5, true), 8);
    assert_eq!(jump_over_else_target(9), 11);
}

#[test]
fn lowering_emits_case_with_computed_target() {
    let vocab = Vocabulary::new();
    let toks = tokenize_code("? (1 >> 0) { ~- 1. }.", &vocab).expect("tokenize");
    let tree = parse_program(&toks).expect("parse");
    let mut ir: Vec<IR> = Vec::new();
    ast_to_ir(&tree, &mut ir);
    assert_eq!(ir.len(), 1);
    match &ir[0] {
        IR::Efine(body) => {
            // condition: Num 1, Num 0, Gt; guard at 3 with target 5; body
            // block at 4.
            assert!(matches!(body[0], IR::Num(1)));
            assert!(matches!(body[1], IR::Num(0)));
            assert!(matches!(body[2], IR::Gt));
            match &body[3] {
                IR::Case(pats, target) => {
                    assert_eq!(*target, 5);
                    assert_eq!(pats.len(), 1);
                },
                other => panic!("expected a case guard, got {:?}", other),
            }
            assert!(matches!(body[4], IR::Efine(_)));
            assert_eq!(body.len(), 5);
        },
        other => panic!("expected an inline block, got {:?}", other),
    }
}

#[test]
fn bytecode_encoding_of_literals() {
    let b = generate_bytecode(Statement::new(Box::new(StatementV::Bool(true))));
    assert_eq!(b, vec![0u8, 1, 255]);
    // 258 = 2 + 256: low byte first, then seven higher bytes, then halt.
    let n = generate_bytecode(Statement::new(Box::new(StatementV::Number(258))));
    assert_eq!(n, vec![0u8, 2, 1, 0, 0, 0, 0, 0, 0, 255]);
    let nil = generate_bytecode(Statement::new(Box::new(StatementV::Nil)));
    assert_eq!(nil, vec![255u8]);
}

#[test]
fn byte_stack_operations() {
    let mut s = Stack::new();
    assert_eq!(s.len(), 0);
    s.push_byte(7);
    s.push_byte(5);
    assert_eq!(s.len(), 2);
    assert_eq!(s.get(0), 7);
    assert_eq!(s.get(1), 5);
    // Addition widens to sixteen bits and pushes low byte then high byte.
    assert!(s.do_operation(2).is_ok());
    assert_eq!(s.len(), 2);
    assert_eq!(s.get(0), 12);
    assert_eq!(s.get(1), 0);
    let mut s = Stack::new();
    s.push_byte(200);
    s.push_byte(100);
    assert!(s.do_operation(4).is_ok());
    // 200 * 100 = 20000 = 32 + 256 * 78.
    assert_eq!(s.get(0), 32);
    assert_eq!(s.get(1), 78);
    let mut s = Stack::new();
    s.push_byte(9);
    s.push_byte(4);
    assert!(s.do_operation(6).is_ok());
    assert_eq!(s.len(), 1);
    assert_eq!(s.get(0), 1);
    let mut s = Stack::new();
    s.push_byte(3);
    s.push_byte(3);
    assert!(s.do_operation(7).is_ok());
    assert_eq!(s.get(0), 1);
    let mut s = Stack::new();
    s.push_byte(0);
    assert!(s.do_operation(13).is_ok());
    assert_eq!(s.get(0), 1);
}
