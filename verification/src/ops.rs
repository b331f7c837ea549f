//! The data carried between the pipeline's stages: flat operations, tree
//! instructions, and the fatal conditions a run can end in.

use vstd::prelude::*;

verus! {

/// A flat operation. The tokenizer produces the primitive ones; the
/// optimizer rewrites runs and idioms into the counted forms `Move`,
/// `Add`, `Sub`, `ResetCell` and `ScanCells`.
#[derive(Clone, Copy, Debug, PartialEq, Eq, Structural)]
pub enum OpCode {
    /// Net pointer movement by a signed offset.
    Move(i32),
    /// One pointer step forward.
    IncrementPointer,
    /// One pointer step backward.
    DecrementPointer,
    /// One increment of the current cell.
    Increment,
    /// One decrement of the current cell.
    Decrement,
    /// Add a count to the current cell, modulo 256.
    Add(u8),
    /// Subtract a count from the current cell, modulo 256.
    Sub(u8),
    /// Emit the current cell on the output channel.
    Write,
    /// Read one byte from the input channel into the current cell.
    Read,
    /// Open a loop region.
    LoopBegin,
    /// Close a loop region.
    LoopEnd,
    /// Set the current cell to zero.
    ResetCell,
    /// Step the pointer in the given direction (true: forward) until the
    /// current cell reads zero.
    ScanCells(bool),
    /// Emit the indices of the tape prefix holding data (debug extension).
    TapeState,
}

/// A structured instruction, as produced by the parser. Bracket pairs of
/// the flat sequence become `Loop` nodes over their parsed interiors.
#[derive(Debug, PartialEq)]
pub enum Instruction {
    Move(i32),
    Add(u8),
    Sub(u8),
    Write,
    Read,
    Loop(Vec<Instruction>),
    ResetCell,
    ScanCells(bool),
    TapeState,
}

/// A fatal condition. Parse faults carry the index into the operation
/// sequence at which the offending bracket stands.
#[derive(Clone, Copy, Debug, PartialEq, Eq, Structural)]
pub enum Fault {
    /// A loop-end with no open loop region; the index of that loop-end.
    UnmatchedClosing(usize),
    /// A loop-begin never closed; the index of the outermost such loop-begin.
    UnmatchedOpening(usize),
    /// A read instruction found the input channel exhausted.
    InputExhausted,
    /// A scan ran off an end of the tape without finding a zero cell.
    ScanOutOfRange,
}

} // verus!
