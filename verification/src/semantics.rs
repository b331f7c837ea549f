//! The meaning of a program: a fuel-indexed big-step semantics over the
//! machine state. Fuel bounds only the number of loop iterations the
//! semantics is willing to unroll; a run that settles within some fuel
//! settles on the same outcome for every larger fuel, so the fuel is a
//! window onto the (possibly endless) run, not part of its meaning.

use vstd::prelude::*;

use crate::machine::MachineView;
use crate::machine::TAPE_LEN;
use crate::ops::Fault;
use crate::ops::Instruction;

verus! {

/// What a bounded run yields: a halt state, a fault, or no verdict within
/// the given fuel.
pub enum Outcome {
    Halted(MachineView),
    Faulted(Fault),
    More,
}

/// The nearest index at or after p whose cell is zero, scanning forward
/// without wraparound; None when the scan runs off the tape's end.
pub open spec fn scan_fwd(tape: Seq<u8>, p: int) -> Option<int>
    decreases tape.len() - p,
{
    if !(0 <= p < tape.len()) {
        None
    } else if tape[p] == 0 {
        Some(p)
    } else if p == tape.len() - 1 {
        None
    } else {
        scan_fwd(tape, p + 1)
    }
}

/// The nearest index at or before p whose cell is zero, scanning backward
/// without wraparound; None when the scan runs off the tape's start.
pub open spec fn scan_back(tape: Seq<u8>, p: int) -> Option<int>
    decreases p,
{
    if !(0 <= p < tape.len()) {
        None
    } else if tape[p] == 0 {
        Some(p)
    } else if p == 0 {
        None
    } else {
        scan_back(tape, p - 1)
    }
}

/// The decimal digit bytes of n, most significant first.
pub open spec fn dec_bytes(n: nat) -> Seq<u8>
    decreases n,
{
    if n < 10 {
        seq![(48 + n) as u8]
    } else {
        dec_bytes(n / 10).push((48 + n % 10) as u8)
    }
}

/// The text of the indices 0..k, each followed by one space.
pub open spec fn index_text(k: nat) -> Seq<u8>
    decreases k,
{
    if k == 0 {
        Seq::empty()
    } else {
        index_text((k - 1) as nat) + dec_bytes((k - 1) as nat).push(32u8)
    }
}

/// One past the last nonzero cell among the first j; zero when they are
/// all zero.
pub open spec fn dump_limit(tape: Seq<u8>, j: int) -> int
    decreases j,
{
    if j <= 0 {
        0
    } else if tape[j - 1] != 0 {
        j
    } else {
        dump_limit(tape, j - 1)
    }
}

/// The bytes the dump instruction emits: every index from 0 up to one past
/// the last nonzero cell, space-separated, then a line break; a bare line
/// break when no cell is nonzero.
pub open spec fn dump_bytes(tape: Seq<u8>) -> Seq<u8> {
    index_text(dump_limit(tape, tape.len() as int) as nat).push(10u8)
}

/// A cell after adding a count, with 8-bit wraparound.
pub open spec fn cell_add(v: u8, c: u8) -> u8 {
    ((v + c) % 256) as u8
}

/// A cell after subtracting a count, with 8-bit wraparound.
pub open spec fn cell_sub(v: u8, c: u8) -> u8 {
    ((v - c) % 256) as u8
}

/// One instruction's outcome from state m. Only a loop iteration consumes
/// fuel; every other instruction settles immediately.
pub open spec fn step_one(ins: Instruction, m: MachineView, fuel: nat) -> Outcome
    decreases fuel, 0int, 0int,
{
    match ins {
        Instruction::Move(o) => Outcome::Halted(m.with_ptr((m.ptr + o) % (TAPE_LEN as int))),
        Instruction::Add(c) => Outcome::Halted(m.with_cell(cell_add(m.tape[m.ptr], c))),
        Instruction::Sub(c) => Outcome::Halted(m.with_cell(cell_sub(m.tape[m.ptr], c))),
        Instruction::Write => Outcome::Halted(m.with_output(seq![m.tape[m.ptr]])),
        Instruction::Read => {
            if m.input.len() == 0 {
                Outcome::Faulted(Fault::InputExhausted)
            } else {
                Outcome::Halted(m.with_consumed_input())
            }
        },
        Instruction::ResetCell => Outcome::Halted(m.with_cell(0u8)),
        Instruction::ScanCells(dir) => {
            let found = if dir {
                scan_fwd(m.tape, m.ptr)
            } else {
                scan_back(m.tape, m.ptr)
            };
            match found {
                Some(q) => Outcome::Halted(m.with_ptr(q)),
                None => Outcome::Faulted(Fault::ScanOutOfRange),
            }
        },
        Instruction::TapeState => Outcome::Halted(m.with_output(dump_bytes(m.tape))),
        Instruction::Loop(body) => {
            if m.tape[m.ptr] == 0 {
                Outcome::Halted(m)
            } else if fuel == 0 {
                Outcome::More
            } else {
                match step_seq(body@, m, (fuel - 1) as nat) {
                    Outcome::Halted(m2) => step_one(ins, m2, (fuel - 1) as nat),
                    other => other,
                }
            }
        },
    }
}

/// A sequence's outcome from state m: the instructions in order, each from
/// the state the one before halted in.
pub open spec fn step_seq(prog: Seq<Instruction>, m: MachineView, fuel: nat) -> Outcome
    decreases fuel, 1int, prog.len(),
{
    if prog.len() == 0 {
        Outcome::Halted(m)
    } else {
        match step_one(prog[0], m, fuel) {
            Outcome::Halted(m2) => step_seq(prog.drop_first(), m2, fuel),
            other => other,
        }
    }
}

/// A settled verdict never changes with more fuel: whatever one
/// instruction yields within f1 it also yields within any larger f2.
pub proof fn lemma_step_one_mono(ins: Instruction, m: MachineView, f1: nat, f2: nat)
    requires
        f1 <= f2,
        step_one(ins, m, f1) != (Outcome::More),
    ensures
        step_one(ins, m, f2) == step_one(ins, m, f1),
    decreases f1, 0int, 0int,
{
    match ins {
        Instruction::Loop(body) => {
            if m.tape[m.ptr] == 0 {
            } else {
                assert(f1 > 0);
                let r = step_seq(body@, m, (f1 - 1) as nat);
                assert(r != (Outcome::More));
                lemma_step_seq_mono(body@, m, (f1 - 1) as nat, (f2 - 1) as nat);
                match r {
                    Outcome::Halted(m2) => {
                        lemma_step_one_mono(ins, m2, (f1 - 1) as nat, (f2 - 1) as nat);
                    },
                    _ => {},
                }
            }
        },
        _ => {},
    }
}

/// A settled verdict never changes with more fuel, for whole sequences.
pub proof fn lemma_step_seq_mono(prog: Seq<Instruction>, m: MachineView, f1: nat, f2: nat)
    requires
        f1 <= f2,
        step_seq(prog, m, f1) != (Outcome::More),
    ensures
        step_seq(prog, m, f2) == step_seq(prog, m, f1),
    decreases f1, 1int, prog.len(),
{
    if prog.len() == 0 {
    } else {
        let r = step_one(prog[0], m, f1);
        assert(r != (Outcome::More));
        lemma_step_one_mono(prog[0], m, f1, f2);
        match r {
            Outcome::Halted(m2) => {
                lemma_step_seq_mono(prog.drop_first(), m2, f1, f2);
            },
            _ => {},
        }
    }
}

/// The semantics is deterministic: two settled runs of the same program
/// from the same state agree, whatever their fuels.
pub proof fn lemma_run_deterministic(prog: Seq<Instruction>, m: MachineView, f1: nat, f2: nat)
    requires
        step_seq(prog, m, f1) != (Outcome::More),
        step_seq(prog, m, f2) != (Outcome::More),
    ensures
        step_seq(prog, m, f1) == step_seq(prog, m, f2),
{
    if f1 <= f2 {
        lemma_step_seq_mono(prog, m, f1, f2);
    } else {
        lemma_step_seq_mono(prog, m, f2, f1);
    }
}

} // verus!
