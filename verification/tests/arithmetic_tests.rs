// End-to-end assembly and execution: programs assembled from text, loaded
// and run until the exit convention, then inspected.

use toast_interpreter::assembler::assemble;
use toast_interpreter::cpu::CPUState;
use toast_interpreter::interp::{interpret_bytes, RunOutcome};

fn run_program(text: &str) -> (CPUState, RunOutcome) {
    let binary = assemble(&String::from(text)).expect("assembly failed");
    let mut cpu_state = CPUState::new();
    let outcome = interpret_bytes(&binary, &mut cpu_state, 20);
    (cpu_state, outcome)
}

#[test]
fn add_program_leaves_sum_in_register_three() {
    let (state, outcome) = run_program(
        "addi x1, x0, 5\naddi x2, x0, 7\nadd x3, x1, x2\naddi x17, x0, 10\necall\n",
    );
    assert_eq!(outcome, RunOutcome::Halted);
    assert_eq!(state.registers[3], 12);
}

#[test]
fn sub_program() {
    let (state, outcome) = run_program(
        "addi x1, x0, 30\naddi x2, x0, 7\nsub x3, x1, x2\naddi x17, x0, 10\necall\n",
    );
    assert_eq!(outcome, RunOutcome::Halted);
    assert_eq!(state.registers[3], 23);
}

#[test]
fn mul_program() {
    let (state, outcome) = run_program(
        "addi x1, x0, 6\naddi x2, x0, 7\nmul x3, x1, x2\naddi x17, x0, 10\necall\n",
    );
    assert_eq!(outcome, RunOutcome::Halted);
    assert_eq!(state.registers[3], 42);
}

#[test]
fn logical_ops_program() {
    let (state, outcome) = run_program(
        "addi x1, x0, 12\naddi x2, x0, 10\nand x3, x1, x2\nor x4, x1, x2\nxor x5, x1, x2\naddi x17, x0, 10\necall\n",
    );
    assert_eq!(outcome, RunOutcome::Halted);
    assert_eq!(state.registers[3], 8);
    assert_eq!(state.registers[4], 14);
    assert_eq!(state.registers[5], 6);
}

#[test]
fn termination_convention_halts_before_later_instructions() {
    let (state, outcome) = run_program("addi x17, x0, 10\necall\naddi x1, x0, 99\n");
    assert_eq!(outcome, RunOutcome::Halted);
    assert_eq!(state.registers[1], 0);
    assert_eq!(state.pc, 4);
}

#[test]
fn register_zero_reads_zero_after_writes() {
    let (state, outcome) = run_program(
        "addi x0, x0, 5\nadd x0, x0, x0\naddi x17, x0, 10\necall\n",
    );
    assert_eq!(outcome, RunOutcome::Halted);
    assert_eq!(state.registers[0], 0);
}

#[test]
fn forward_branch_label_resolves_and_skips() {
    let (state, outcome) = run_program(
        "beq x0, x0, skip\naddi x1, x0, 1\nskip: addi x17, x0, 10\necall\n",
    );
    assert_eq!(outcome, RunOutcome::Halted);
    assert_eq!(state.registers[1], 0);
}

#[test]
fn out_of_steps_on_tight_loop() {
    let binary = assemble(&String::from("jal x0, 0\n")).expect("assembly failed");
    let mut cpu_state = CPUState::new();
    let outcome = interpret_bytes(&binary, &mut cpu_state, 20);
    assert_eq!(outcome, RunOutcome::OutOfSteps);
}
