use tapelang::ops::Fault;
use tapelang::run;
use tapelang::RunOutcome;

const FUEL: u64 = 1 << 40;

#[test]
fn echo_input_byte_incremented() {
    // read into the cell, add one modulo 256, write: 'A' in, 'B' out
    assert_eq!(run(",+.", vec![65], FUEL), RunOutcome::Output(vec![66]));
}

#[test]
fn hello_world_program_prints_exactly_that() {
    let source = "++++++++++[>+++++++>++++++++++>+++>+<<<<-]\
                  >++.>+.+++++++..+++.>++.<<+++++++++++++++.\
                  >.+++.------.--------.>+.";
    assert_eq!(
        run(source, vec![], FUEL),
        RunOutcome::Output(b"Hello World!".to_vec())
    );
}

#[test]
fn lone_brackets_fault_through_the_pipeline() {
    assert_eq!(
        run("]", vec![], FUEL),
        RunOutcome::Faulted(Fault::UnmatchedClosing(0))
    );
    assert_eq!(
        run("[", vec![], FUEL),
        RunOutcome::Faulted(Fault::UnmatchedOpening(0))
    );
}

#[test]
fn reset_idiom_end_to_end() {
    assert_eq!(run("+++++[-].", vec![], FUEL), RunOutcome::Output(vec![0]));
    assert_eq!(run("++[+].", vec![], FUEL), RunOutcome::Output(vec![0]));
}

#[test]
fn scan_idiom_end_to_end() {
    // two nonzero cells, pointer back at zero; the scan lands on the first
    // zero cell without changing any value
    assert_eq!(
        run("+>++<[>]<.", vec![], FUEL),
        RunOutcome::Output(vec![2])
    );
}

#[test]
fn counted_runs_wrap_end_to_end() {
    let mut source = "+".repeat(300);
    source.push('.');
    assert_eq!(run(&source, vec![], FUEL), RunOutcome::Output(vec![44]));
    assert_eq!(run("-.", vec![], FUEL), RunOutcome::Output(vec![255]));
}

#[test]
fn input_exhaustion_faults_the_run() {
    assert_eq!(
        run(",", vec![], FUEL),
        RunOutcome::Faulted(Fault::InputExhausted)
    );
}

#[test]
fn scan_off_the_tape_faults_the_run() {
    assert_eq!(
        run("+[<]", vec![], FUEL),
        RunOutcome::Faulted(Fault::ScanOutOfRange)
    );
}

#[test]
fn endless_program_runs_out_of_fuel() {
    assert_eq!(run("+[]", vec![], 1000), RunOutcome::OutOfFuel);
}

#[test]
fn comments_are_ignored_end_to_end() {
    assert_eq!(
        run("read a byte , then echo it .", vec![88], FUEL),
        RunOutcome::Output(vec![88])
    );
}

#[test]
fn debug_dump_end_to_end() {
    assert_eq!(
        run("+>++|", vec![], FUEL),
        RunOutcome::Output(b"0 1 \n".to_vec())
    );
}
