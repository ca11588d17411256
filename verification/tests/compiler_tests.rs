use coki::asm_ops::{AsmOp, AsmOperand, Register};
use coki::grammar::{AddOp, AddTerm, Expr, MultOp, MultTerm, Statement};
use coki::ir::{translate, VarStore};
use coki::machine::Machine;
use coki::CompileError;

fn num(n: i32) -> Expr {
    Expr::Num(n)
}

fn add_chain(first: Expr, rest: Vec<(AddOp, Expr)>) -> Expr {
    let mut terms = vec![AddTerm(AddOp::Start, first)];
    for (op, e) in rest {
        terms.push(AddTerm(op, e));
    }
    Expr::AddSub(terms)
}

fn mult_chain(first: Expr, rest: Vec<(MultOp, Expr)>) -> Expr {
    let mut terms = vec![MultTerm(MultOp::Start, first)];
    for (op, e) in rest {
        terms.push(MultTerm(op, e));
    }
    Expr::MultDiv(terms)
}

fn run_program(block: Vec<Statement>) -> (Machine, bool) {
    let ops = translate(&block).expect("program should compile");
    let mut m = Machine::new();
    let ok = m.run_ops(&ops);
    (m, ok)
}

#[test]
fn precedence_holds() {
    // 1 + 2 * 3 evaluates to 7, not 9: the tree nests the product.
    let product = mult_chain(num(2), vec![(MultOp::Multiply, num(3))]);
    let sum = add_chain(num(1), vec![(AddOp::Add, product)]);
    let (m, ok) = run_program(vec![Statement::Output(sum)]);
    assert!(ok);
    assert_eq!(m.rax(), 7);
    assert_eq!(m.output().as_slice(), b"7\r\n");
}

#[test]
fn division_truncates() {
    let quotient = mult_chain(num(7), vec![(MultOp::Divide, num(2))]);
    let (m, ok) = run_program(vec![Statement::Output(quotient)]);
    assert!(ok);
    assert_eq!(m.rax(), 3);
    assert_eq!(m.output().as_slice(), b"3\r\n");
}

#[test]
fn remainder_of_truncating_division() {
    let remainder = mult_chain(num(7), vec![(MultOp::Modulo, num(2))]);
    let (m, ok) = run_program(vec![Statement::Output(remainder)]);
    assert!(ok);
    assert_eq!(m.rax(), 1);
    assert_eq!(m.output().as_slice(), b"1\r\n");
}

#[test]
fn subtraction_orders_operands() {
    let difference = add_chain(num(10), vec![(AddOp::Subtract, num(3))]);
    let (m, ok) = run_program(vec![Statement::Output(difference)]);
    assert!(ok);
    assert_eq!(m.rax(), 7);
}

#[test]
fn end_to_end_assign_add_output() {
    // x := 3; y := x + 4; output y  prints 7 CRLF and returns 7.
    let block = vec![
        Statement::Assign("x".to_string(), num(3)),
        Statement::Assign(
            "y".to_string(),
            add_chain(Expr::Variable("x".to_string()), vec![(AddOp::Add, num(4))]),
        ),
        Statement::Output(Expr::Variable("y".to_string())),
    ];
    let (m, ok) = run_program(block);
    assert!(ok);
    assert_eq!(m.output().as_slice(), b"7\r\n");
    assert_eq!(m.rax(), 7);
}

#[test]
fn assigned_variable_reproduces_value() {
    let block = vec![
        Statement::Assign("x".to_string(), num(42)),
        Statement::Output(Expr::Variable("x".to_string())),
    ];
    let (m, ok) = run_program(block);
    assert!(ok);
    assert_eq!(m.output().as_slice(), b"42\r\n");
}

#[test]
fn reassignment_outputs_last_value() {
    let block = vec![
        Statement::Assign("x".to_string(), num(5)),
        Statement::Assign("x".to_string(), num(9)),
        Statement::Output(Expr::Variable("x".to_string())),
    ];
    let (m, ok) = run_program(block);
    assert!(ok);
    assert_eq!(m.output().as_slice(), b"9\r\n");
}

#[test]
fn output_zero_prints_lone_zero() {
    let (m, ok) = run_program(vec![Statement::Output(num(0))]);
    assert!(ok);
    assert_eq!(m.output().as_slice(), b"0\r\n");
}

#[test]
fn output_literal_prints_decimal_digits() {
    let (m, ok) = run_program(vec![Statement::Output(num(12345))]);
    assert!(ok);
    assert_eq!(m.output().as_slice(), b"12345\r\n");
}

#[test]
fn undefined_variable_read_fails() {
    let block = vec![Statement::Output(Expr::Variable("nowhere".to_string()))];
    match translate(&block) {
        Err(CompileError::UndefinedVariable(name)) => assert_eq!(name, "nowhere"),
        other => panic!("expected an undefined-variable failure, got {:?}", other),
    }
}

#[test]
fn undefined_variable_in_assignment_rhs_fails() {
    let block = vec![Statement::Assign(
        "x".to_string(),
        Expr::Variable("x".to_string()),
    )];
    match translate(&block) {
        Err(CompileError::UndefinedVariable(name)) => assert_eq!(name, "x"),
        other => panic!("expected an undefined-variable failure, got {:?}", other),
    }
}

#[test]
fn var_store_assigns_stable_strided_offsets() {
    let mut store = VarStore::new();
    let x = "x".to_string();
    let y = "y".to_string();
    assert_eq!(store.get_var_address_l(&x), Ok(1000));
    assert_eq!(store.get_var_address_l(&y), Ok(1008));
    // A second write reuses the slot; a read sees it too.
    assert_eq!(store.get_var_address_l(&x), Ok(1000));
    assert_eq!(store.get_var_address_r(&y), Ok(1008));
    match store.get_var_address_r(&"z".to_string()) {
        Err(CompileError::UndefinedVariable(name)) => assert_eq!(name, "z"),
        other => panic!("expected an undefined-variable failure, got {:?}", other),
    }
}

#[test]
fn var_store_rejects_the_126th_variable() {
    let mut store = VarStore::new();
    for i in 0..125 {
        let name = format!("v{}", i);
        assert_eq!(store.get_var_address_l(&name), Ok(1000 + 8 * i as u16));
    }
    assert_eq!(
        store.get_var_address_l(&"overflow".to_string()),
        Err(CompileError::VariableSpace)
    );
}

#[test]
fn division_by_zero_has_no_machine_state() {
    let quotient = mult_chain(num(1), vec![(MultOp::Divide, num(0))]);
    let ops = translate(&vec![Statement::Output(quotient)]).unwrap();
    let mut m = Machine::new();
    assert!(!m.run_ops(&ops));
}

#[test]
fn control_flow_instructions_stop_the_interpreter() {
    let mut m = Machine::new();
    assert!(!m.step_op(&AsmOp::Jmp("loop_top".to_string())));
    assert!(!m.step_op(&AsmOp::Cmp(
        AsmOperand::RegisterOperand(Register::RAX),
        AsmOperand::Value(0),
    )));
}
