use tapelang::ops::OpCode;
use tapelang::optimizer::optimize_opcodes;
use tapelang::tokenizer::tokenize;

fn optimized(source: &str) -> Vec<OpCode> {
    let mut opcodes = tokenize(source);
    optimize_opcodes(&mut opcodes);
    opcodes
}

#[test]
fn increment_run_collapses_to_add() {
    assert_eq!(optimized("+++"), vec![OpCode::Add(3)]);
}

#[test]
fn decrement_run_collapses_to_sub() {
    assert_eq!(optimized("----"), vec![OpCode::Sub(4)]);
}

#[test]
fn count_wraps_modulo_256() {
    let source = "+".repeat(256);
    assert_eq!(optimized(&source), vec![OpCode::Add(0)]);
    let longer = "+".repeat(300);
    assert_eq!(optimized(&longer), vec![OpCode::Add(44)]);
}

#[test]
fn pointer_run_collapses_to_net_move() {
    assert_eq!(optimized(">>><"), vec![OpCode::Move(2)]);
    assert_eq!(optimized("<<<"), vec![OpCode::Move(-3)]);
}

#[test]
fn pointer_run_with_zero_net_disappears() {
    assert_eq!(optimized("><"), vec![]);
    assert_eq!(optimized("><><"), vec![]);
}

#[test]
fn reset_idiom_both_forms() {
    assert_eq!(optimized("[-]"), vec![OpCode::ResetCell]);
    assert_eq!(optimized("[+]"), vec![OpCode::ResetCell]);
}

#[test]
fn scan_idiom_both_directions() {
    assert_eq!(optimized("[>]"), vec![OpCode::ScanCells(true)]);
    assert_eq!(optimized("[<]"), vec![OpCode::ScanCells(false)]);
}

#[test]
fn idiom_inside_outer_brackets() {
    assert_eq!(
        optimized("[[-]]"),
        vec![OpCode::LoopBegin, OpCode::ResetCell, OpCode::LoopEnd]
    );
}

#[test]
fn adjacent_runs_stay_separate() {
    assert_eq!(optimized("+++--"), vec![OpCode::Add(3), OpCode::Sub(2)]);
}

#[test]
fn non_idiom_loop_is_left_alone() {
    assert_eq!(
        optimized("[.]"),
        vec![OpCode::LoopBegin, OpCode::Write, OpCode::LoopEnd]
    );
}

#[test]
fn plain_operations_untouched() {
    assert_eq!(
        optimized(".,|"),
        vec![OpCode::Write, OpCode::Read, OpCode::TapeState]
    );
}

#[test]
fn empty_sequence_is_a_no_op() {
    assert_eq!(optimized(""), vec![]);
}

#[test]
fn rewrite_continues_after_an_idiom() {
    assert_eq!(
        optimized("[-]+++"),
        vec![OpCode::ResetCell, OpCode::Add(3)]
    );
}
