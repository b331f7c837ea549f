use tapelang::ops::OpCode;
use tapelang::tokenizer::tokenize;

#[test]
fn tokenize_maps_all_nine_symbols() {
    assert_eq!(
        tokenize("><+-.,[]|"),
        vec![
            OpCode::IncrementPointer,
            OpCode::DecrementPointer,
            OpCode::Increment,
            OpCode::Decrement,
            OpCode::Write,
            OpCode::Read,
            OpCode::LoopBegin,
            OpCode::LoopEnd,
            OpCode::TapeState,
        ]
    );
}

#[test]
fn tokenize_drops_unrecognized_characters() {
    assert_eq!(
        tokenize("a +\n b-#3"),
        vec![OpCode::Increment, OpCode::Decrement]
    );
}

#[test]
fn tokenize_empty_source_is_empty() {
    assert_eq!(tokenize(""), vec![]);
}

#[test]
fn tokenize_keeps_source_order() {
    assert_eq!(
        tokenize("+[x]-"),
        vec![
            OpCode::Increment,
            OpCode::LoopBegin,
            OpCode::LoopEnd,
            OpCode::Decrement,
        ]
    );
}
