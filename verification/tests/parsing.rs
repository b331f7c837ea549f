use tapelang::ops::Fault;
use tapelang::ops::Instruction;
use tapelang::ops::OpCode;
use tapelang::optimizer::optimize_opcodes;
use tapelang::parser::parse;
use tapelang::tokenizer::tokenize;

fn parsed(source: &str) -> Result<Vec<Instruction>, Fault> {
    let mut opcodes = tokenize(source);
    optimize_opcodes(&mut opcodes);
    parse(opcodes)
}

#[test]
fn lone_closing_bracket_faults_at_zero() {
    assert_eq!(
        parse(tokenize("]")),
        Err(Fault::UnmatchedClosing(0))
    );
}

#[test]
fn lone_opening_bracket_faults_at_zero() {
    assert_eq!(
        parse(tokenize("[")),
        Err(Fault::UnmatchedOpening(0))
    );
}

#[test]
fn stray_closing_bracket_position_is_reported() {
    assert_eq!(
        parse(tokenize("[]]")),
        Err(Fault::UnmatchedClosing(2))
    );
}

#[test]
fn outermost_unmatched_opening_is_reported() {
    assert_eq!(
        parse(tokenize("[[")),
        Err(Fault::UnmatchedOpening(0))
    );
    assert_eq!(
        parse(tokenize("[][")),
        Err(Fault::UnmatchedOpening(2))
    );
}

#[test]
fn empty_loop_parses_to_empty_body() {
    assert_eq!(
        parse(vec![OpCode::LoopBegin, OpCode::LoopEnd]),
        Ok(vec![Instruction::Loop(vec![])])
    );
}

#[test]
fn primitive_operations_have_no_tree_counterpart() {
    // without the optimizer's rewrite, raw steps and counts are dropped
    assert_eq!(parse(tokenize("+>-<")), Ok(vec![]));
    assert_eq!(parse(tokenize("[+]")), Ok(vec![Instruction::Loop(vec![])]));
}

#[test]
fn optimized_operations_translate_directly() {
    assert_eq!(
        parsed(",[-]."),
        Ok(vec![
            Instruction::Read,
            Instruction::ResetCell,
            Instruction::Write,
        ])
    );
}

#[test]
fn nested_loops_mirror_bracket_nesting() {
    assert_eq!(
        parsed("[[.].]"),
        Ok(vec![Instruction::Loop(vec![
            Instruction::Loop(vec![Instruction::Write]),
            Instruction::Write,
        ])])
    );
}

#[test]
fn counted_and_move_operations_carry_their_values() {
    assert_eq!(
        parsed("+++>><--"),
        Ok(vec![
            Instruction::Add(3),
            Instruction::Move(1),
            Instruction::Sub(2),
        ])
    );
}

#[test]
fn parse_of_unoptimized_equals_parse_of_optimized_without_runs() {
    // a source with nothing for the optimizer to collapse parses the same
    // whether or not the rewrite ran
    let source = ".,[.,]|";
    assert_eq!(parse(tokenize(source)), parsed(source));
}
