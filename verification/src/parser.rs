//! The structural parser: the flat (normally optimized) operation sequence
//! becomes an ordered instruction tree. Bracket pairs resolve into `Loop`
//! nodes over the recursive parse of their interior; plain operations
//! translate one for one; primitive steps and counts, which the optimizer
//! collapses, have no tree counterpart and are dropped. A loop-end with no
//! open region, or a loop-begin never closed, is a fatal parse fault
//! carrying the offending operation's index.

use vstd::prelude::*;

use crate::ops::Fault;
use crate::ops::Instruction;
use crate::ops::OpCode;

verus! {

/// The instruction a single non-bracket operation translates to, if any.
pub open spec fn plain_instr(op: OpCode) -> Option<Instruction> {
    match op {
        OpCode::Move(o) => Some(Instruction::Move(o)),
        OpCode::Add(c) => Some(Instruction::Add(c)),
        OpCode::Sub(c) => Some(Instruction::Sub(c)),
        OpCode::Write => Some(Instruction::Write),
        OpCode::Read => Some(Instruction::Read),
        OpCode::ResetCell => Some(Instruction::ResetCell),
        OpCode::ScanCells(d) => Some(Instruction::ScanCells(d)),
        OpCode::TapeState => Some(Instruction::TapeState),
        _ => None,
    }
}

/// The index of the loop-end in ops[j..hi) that brings the bracket depth
/// from `depth` back to zero; None when the scan runs out first.
pub open spec fn find_close(ops: Seq<OpCode>, j: int, hi: int, depth: int) -> Option<int>
    decreases hi - j,
{
    if !(0 <= j && j < hi && hi <= ops.len()) {
        None
    } else if ops[j] == OpCode::LoopEnd {
        if depth == 1 {
            Some(j)
        } else {
            find_close(ops, j + 1, hi, depth - 1)
        }
    } else if ops[j] == OpCode::LoopBegin {
        find_close(ops, j + 1, hi, depth + 1)
    } else {
        find_close(ops, j + 1, hi, depth)
    }
}

/// prog is the structured program of the operation range ops[lo..hi): each
/// bracket group becomes a Loop node over the parse of its interior, each
/// plain operation its direct counterpart, and primitive steps and counts
/// disappear.
pub open spec fn parses_to(ops: Seq<OpCode>, lo: int, hi: int, prog: Seq<Instruction>) -> bool
    decreases hi - lo,
{
    if !(0 <= lo && lo <= hi && hi <= ops.len()) {
        false
    } else if lo == hi {
        prog.len() == 0
    } else if ops[lo] == OpCode::LoopBegin {
        match find_close(ops, lo + 1, hi, 1) {
            None => false,
            Some(j) => {
                if lo + 1 <= j && j < hi {
                    &&& prog.len() >= 1
                    &&& (match prog[0] {
                        Instruction::Loop(body) => parses_to(ops, lo + 1, j, body@),
                        _ => false,
                    })
                    &&& parses_to(ops, j + 1, hi, prog.drop_first())
                } else {
                    false
                }
            },
        }
    } else if ops[lo] == OpCode::LoopEnd {
        false
    } else {
        match plain_instr(ops[lo]) {
            Some(ins) => prog.len() >= 1 && prog[0] == ins && parses_to(
                ops,
                lo + 1,
                hi,
                prog.drop_first(),
            ),
            None => parses_to(ops, lo + 1, hi, prog),
        }
    }
}

/// The parse fault of the range ops[lo..hi), if any, with bracket
/// positions absolute in ops. A closed group's interior is always
/// bracket-balanced, so in fact only the outermost level can fault.
pub open spec fn parse_fault(ops: Seq<OpCode>, lo: int, hi: int) -> Option<Fault>
    decreases hi - lo,
{
    if !(0 <= lo && lo <= hi && hi <= ops.len()) {
        None
    } else if lo == hi {
        None
    } else if ops[lo] == OpCode::LoopBegin {
        match find_close(ops, lo + 1, hi, 1) {
            None => Some(Fault::UnmatchedOpening(lo as usize)),
            Some(j) => {
                if lo + 1 <= j && j < hi {
                    match parse_fault(ops, lo + 1, j) {
                        Some(e) => Some(e),
                        None => parse_fault(ops, j + 1, hi),
                    }
                } else {
                    None
                }
            },
        }
    } else if ops[lo] == OpCode::LoopEnd {
        Some(Fault::UnmatchedClosing(lo as usize))
    } else {
        parse_fault(ops, lo + 1, hi)
    }
}

/// The executable counterpart of `plain_instr`.
fn translate_plain(op: OpCode) -> (r: Option<Instruction>)
    ensures
        r == plain_instr(op),
{
    match op {
        OpCode::Move(o) => Some(Instruction::Move(o)),
        OpCode::Add(c) => Some(Instruction::Add(c)),
        OpCode::Sub(c) => Some(Instruction::Sub(c)),
        OpCode::Write => Some(Instruction::Write),
        OpCode::Read => Some(Instruction::Read),
        OpCode::ResetCell => Some(Instruction::ResetCell),
        OpCode::ScanCells(d) => Some(Instruction::ScanCells(d)),
        OpCode::TapeState => Some(Instruction::TapeState),
        _ => None,
    }
}

/// Scans ops[start..hi) for the loop-end matching an already-open group.
fn find_close_exec(opcodes: &Vec<OpCode>, start: usize, hi: usize) -> (r: Option<usize>)
    requires
        start <= hi && hi <= opcodes@.len(),
    ensures
        (match r {
            Some(j) => find_close(opcodes@, start as int, hi as int, 1) == Some(j as int) && start
                <= j && j < hi,
            None => find_close(opcodes@, start as int, hi as int, 1) is None,
        }),
{
    let mut j = start;
    // one less than the bracket depth: the number of groups opened inside
    // the scanned range that are still open
    let mut excess: usize = 0;
    while j < hi
        invariant
            start <= j <= hi,
            hi <= opcodes@.len(),
            excess <= j - start,
            find_close(opcodes@, start as int, hi as int, 1) == find_close(
                opcodes@,
                j as int,
                hi as int,
                excess as int + 1,
            ),
        decreases hi - j,
    {
        let op = opcodes[j];
        if op == OpCode::LoopEnd {
            if excess == 0 {
                return Some(j);
            }
            excess -= 1;
        } else if op == OpCode::LoopBegin {
            excess += 1;
        }
        j += 1;
    }
    None
}

/// Parses the operation range ops[lo..hi); positions in faults are
/// absolute indices into the whole sequence.
fn parse_range(opcodes: &Vec<OpCode>, lo: usize, hi: usize) -> (r: Result<Vec<Instruction>, Fault>)
    requires
        lo <= hi && hi <= opcodes@.len(),
    ensures
        (match r {
            Ok(v) => parses_to(opcodes@, lo as int, hi as int, v@) && parse_fault(
                opcodes@,
                lo as int,
                hi as int,
            ) is None,
            Err(e) => parse_fault(opcodes@, lo as int, hi as int) == Some(e),
        }),
    decreases hi - lo,
{
    if lo == hi {
        return Ok(Vec::new());
    }
    let op = opcodes[lo];
    if op == OpCode::LoopEnd {
        return Err(Fault::UnmatchedClosing(lo));
    }
    if op == OpCode::LoopBegin {
        match find_close_exec(opcodes, lo + 1, hi) {
            None => Err(Fault::UnmatchedOpening(lo)),
            Some(j) => {
                let body = match parse_range(opcodes, lo + 1, j) {
                    Ok(v) => v,
                    Err(e) => {
                        return Err(e);
                    },
                };
                let rest = match parse_range(opcodes, j + 1, hi) {
                    Ok(v) => v,
                    Err(e) => {
                        return Err(e);
                    },
                };
                let ghost body_view = body@;
                let ghost rest_view = rest@;
                let mut v = rest;
                v.insert(0, Instruction::Loop(body));
                proof {
                    assert(v@[0] == Instruction::Loop(body));
                    assert(v@.drop_first() =~= rest_view);
                }
                Ok(v)
            },
        }
    } else {
        let rest = match parse_range(opcodes, lo + 1, hi) {
            Ok(v) => v,
            Err(e) => {
                return Err(e);
            },
        };
        match translate_plain(op) {
            Some(ins) => {
                let ghost rest_view = rest@;
                let mut v = rest;
                v.insert(0, ins);
                proof {
                    assert(v@[0] == ins);
                    assert(v@.drop_first() =~= rest_view);
                }
                Ok(v)
            },
            None => Ok(rest),
        }
    }
}

/// Builds the structured program of the whole operation sequence, every
/// bracket pair resolved into a Loop node. Returns the fault instead when
/// a bracket is unmatched: exactly when `parse_fault` names one.
pub fn parse(opcodes: Vec<OpCode>) -> (r: Result<Vec<Instruction>, Fault>)
    ensures
        (match r {
            Ok(v) => parses_to(opcodes@, 0, opcodes@.len() as int, v@) && parse_fault(
                opcodes@,
                0,
                opcodes@.len() as int,
            ) is None,
            Err(e) => parse_fault(opcodes@, 0, opcodes@.len() as int) == Some(e),
        }),
{
    let hi = opcodes.len();
    parse_range(&opcodes, 0, hi)
}

} // verus!
