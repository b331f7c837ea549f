use tapelang::executor::execute;
use tapelang::executor::RunStatus;
use tapelang::machine::Machine;
use tapelang::machine::TAPE_LEN;
use tapelang::ops::Fault;
use tapelang::ops::Instruction;

fn run_instructions(program: Vec<Instruction>, input: Vec<u8>) -> (Machine, RunStatus) {
    let mut m = Machine::new(input);
    let status = execute(&program, &mut m, u64::MAX);
    (m, status)
}

#[test]
fn machine_starts_zeroed() {
    let m = Machine::new(vec![]);
    assert_eq!(m.tape.len(), TAPE_LEN);
    assert_eq!(m.ptr, 0);
    assert!(m.tape.iter().all(|&c| c == 0));
    assert!(m.output.is_empty());
}

#[test]
fn add_and_sub_wrap_modulo_256() {
    let (m, st) = run_instructions(vec![Instruction::Add(200), Instruction::Add(200)], vec![]);
    assert_eq!(st, RunStatus::Done);
    assert_eq!(m.tape[0], 144);
    let (m2, st2) = run_instructions(vec![Instruction::Sub(1)], vec![]);
    assert_eq!(st2, RunStatus::Done);
    assert_eq!(m2.tape[0], 255);
}

#[test]
fn move_wraps_in_both_directions() {
    let (m, _) = run_instructions(vec![Instruction::Move(-1)], vec![]);
    assert_eq!(m.ptr, 29999);
    let (m2, _) = run_instructions(vec![Instruction::Move(30001)], vec![]);
    assert_eq!(m2.ptr, 1);
    let (m3, _) = run_instructions(vec![Instruction::Move(-60001)], vec![]);
    assert_eq!(m3.ptr, 29999);
    let (m4, _) = run_instructions(vec![Instruction::Move(30000)], vec![]);
    assert_eq!(m4.ptr, 0);
}

#[test]
fn reset_cell_zeroes_without_moving() {
    let (m, st) = run_instructions(vec![Instruction::Add(5), Instruction::ResetCell], vec![]);
    assert_eq!(st, RunStatus::Done);
    assert_eq!(m.tape[0], 0);
    assert_eq!(m.ptr, 0);
}

#[test]
fn scan_forward_stops_on_nearest_zero() {
    let program = vec![
        Instruction::Add(1),
        Instruction::Move(1),
        Instruction::Add(1),
        Instruction::Move(-1),
        Instruction::ScanCells(true),
    ];
    let (m, st) = run_instructions(program, vec![]);
    assert_eq!(st, RunStatus::Done);
    assert_eq!(m.ptr, 2);
    assert_eq!(m.tape[0], 1);
    assert_eq!(m.tape[1], 1);
}

#[test]
fn scan_backward_off_the_tape_faults() {
    let (m, st) = run_instructions(
        vec![Instruction::Add(1), Instruction::ScanCells(false)],
        vec![],
    );
    assert_eq!(st, RunStatus::Faulted(Fault::ScanOutOfRange));
    assert_eq!(m.ptr, 0);
}

#[test]
fn read_consumes_input_in_order() {
    let program = vec![Instruction::Read, Instruction::Move(1), Instruction::Read];
    let (m, st) = run_instructions(program, vec![7, 9]);
    assert_eq!(st, RunStatus::Done);
    assert_eq!(m.tape[0], 7);
    assert_eq!(m.tape[1], 9);
    assert!(m.input.is_empty());
}

#[test]
fn read_on_exhausted_input_faults() {
    let (_, st) = run_instructions(vec![Instruction::Read], vec![]);
    assert_eq!(st, RunStatus::Faulted(Fault::InputExhausted));
}

#[test]
fn write_emits_current_cell() {
    let (m, st) = run_instructions(vec![Instruction::Add(65), Instruction::Write], vec![]);
    assert_eq!(st, RunStatus::Done);
    assert_eq!(m.output, vec![65]);
}

#[test]
fn loop_with_zero_cell_runs_no_iteration() {
    let program = vec![Instruction::Loop(vec![Instruction::Add(1)])];
    let (m, st) = run_instructions(program, vec![]);
    assert_eq!(st, RunStatus::Done);
    assert_eq!(m.tape[0], 0);
}

#[test]
fn loop_counts_cell_down_to_zero() {
    let program = vec![
        Instruction::Add(3),
        Instruction::Loop(vec![Instruction::Sub(1)]),
    ];
    let (m, st) = run_instructions(program, vec![]);
    assert_eq!(st, RunStatus::Done);
    assert_eq!(m.tape[0], 0);
}

#[test]
fn endless_loop_exhausts_fuel() {
    let program = vec![
        Instruction::Add(1),
        Instruction::Loop(vec![Instruction::Add(0)]),
    ];
    let mut m = Machine::new(vec![]);
    let status = execute(&program, &mut m, 1000);
    assert_eq!(status, RunStatus::OutOfFuel);
}

#[test]
fn tape_state_on_blank_tape_is_a_bare_line_break() {
    let (m, st) = run_instructions(vec![Instruction::TapeState], vec![]);
    assert_eq!(st, RunStatus::Done);
    assert_eq!(m.output, vec![10]);
}

#[test]
fn tape_state_lists_indices_up_to_last_nonzero() {
    let program = vec![
        Instruction::Add(1),
        Instruction::Move(1),
        Instruction::Add(2),
        Instruction::TapeState,
    ];
    let (m, st) = run_instructions(program, vec![]);
    assert_eq!(st, RunStatus::Done);
    assert_eq!(m.output, b"0 1 \n".to_vec());
}

#[test]
fn tape_state_renders_multi_digit_indices() {
    let program = vec![
        Instruction::Move(10),
        Instruction::Add(1),
        Instruction::TapeState,
    ];
    let (m, st) = run_instructions(program, vec![]);
    assert_eq!(st, RunStatus::Done);
    assert_eq!(m.output, b"0 1 2 3 4 5 6 7 8 9 10 \n".to_vec());
}
