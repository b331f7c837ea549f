//! The executor: walks the instruction tree against the machine state,
//! recursing into loop bodies. It computes exactly what the fuel-indexed
//! semantics says: it halts where the semantics halts, reports the same
//! fault where the semantics faults, and gives up only where the given
//! fuel runs out before the semantics settles.

use vstd::prelude::*;
use vstd::arithmetic::div_mod::lemma_fundamental_div_mod;
use vstd::arithmetic::div_mod::lemma_mod_multiples_vanish;

use crate::machine::Machine;
use crate::machine::TAPE_LEN;
use crate::ops::Fault;
use crate::ops::Instruction;
use crate::semantics::cell_add;
use crate::semantics::cell_sub;
use crate::semantics::dec_bytes;
use crate::semantics::dump_bytes;
use crate::semantics::dump_limit;
use crate::semantics::index_text;
use crate::semantics::scan_back;
use crate::semantics::scan_fwd;
use crate::semantics::step_one;
use crate::semantics::step_seq;
use crate::semantics::Outcome;

verus! {

/// How a bounded run ended: normally, on a fault, or undecided because the
/// step budget ran out first.
#[derive(Clone, Copy, Debug, PartialEq, Eq, Structural)]
pub enum RunStatus {
    Done,
    Faulted(Fault),
    OutOfFuel,
}

/// The outcome a status stands for, given the state the run ended in.
pub open spec fn status_outcome(r: RunStatus, end: crate::machine::MachineView) -> Outcome {
    match r {
        RunStatus::Done => Outcome::Halted(end),
        RunStatus::Faulted(e) => Outcome::Faulted(e),
        RunStatus::OutOfFuel => Outcome::More,
    }
}

/// The pointer after a signed move, wrapped modulo the tape length; exact
/// for offsets of either sign and of any magnitude.
fn apply_move(ptr: usize, off: i32) -> (r: usize)
    requires
        ptr < TAPE_LEN,
    ensures
        r == (ptr + off) % (TAPE_LEN as int),
        r < TAPE_LEN,
{
    let l = TAPE_LEN;
    if off >= 0 {
        let k = (off as usize) % l;
        let r = (ptr + k) % l;
        proof {
            let o = off as int;
            let li = l as int;
            lemma_fundamental_div_mod(o, li);
            lemma_mod_multiples_vanish(o / li, ptr + (o % li), li);
        }
        r
    } else {
        let mag = -(off as i64);
        let k = (mag as usize) % l;
        let r = (ptr + (l - k)) % l;
        proof {
            let o = off as int;
            let li = l as int;
            lemma_fundamental_div_mod(-o, li);
            lemma_mod_multiples_vanish((-o) / li + 1, ptr + o, li);
        }
        r
    }
}

/// The current cell after adding a count, with 8-bit wraparound.
fn cell_add_exec(v: u8, c: u8) -> (r: u8)
    ensures
        r == cell_add(v, c),
{
    (((v as u16) + (c as u16)) % 256) as u8
}

/// The current cell after subtracting a count, with 8-bit wraparound.
fn cell_sub_exec(v: u8, c: u8) -> (r: u8)
    ensures
        r == cell_sub(v, c),
{
    let r = (((v as u16) + 256 - (c as u16)) % 256) as u8;
    proof {
        lemma_mod_multiples_vanish(1, v - c, 256);
    }
    r
}

/// The index of the nearest zero cell at or after start, scanning forward
/// without wraparound; None when the scan runs off the tape's end.
fn scan_ptr_fwd(tape: &Vec<u8>, start: usize) -> (r: Option<usize>)
    requires
        start < tape@.len(),
    ensures
        (match r {
            Some(q) => scan_fwd(tape@, start as int) == Some(q as int) && q < tape@.len(),
            None => scan_fwd(tape@, start as int) is None,
        }),
{
    let n = tape.len();
    let mut p = start;
    while tape[p] != 0
        invariant
            p < n,
            n == tape@.len(),
            scan_fwd(tape@, start as int) == scan_fwd(tape@, p as int),
        decreases n - p,
    {
        if p == n - 1 {
            return None;
        }
        p += 1;
    }
    Some(p)
}

/// The index of the nearest zero cell at or before start, scanning
/// backward without wraparound; None when the scan runs off the start.
fn scan_ptr_back(tape: &Vec<u8>, start: usize) -> (r: Option<usize>)
    requires
        start < tape@.len(),
    ensures
        (match r {
            Some(q) => scan_back(tape@, start as int) == Some(q as int) && q < tape@.len(),
            None => scan_back(tape@, start as int) is None,
        }),
{
    let mut p = start;
    while tape[p] != 0
        invariant
            p < tape@.len(),
            scan_back(tape@, start as int) == scan_back(tape@, p as int),
        decreases p,
    {
        if p == 0 {
            return None;
        }
        p -= 1;
    }
    Some(p)
}

/// Steps the pointer in the given direction, without wraparound, until the
/// current cell reads zero; reports the scan fault, leaving the machine
/// untouched, when the scan would run off the tape.
fn scan_cells(m: &mut Machine, dir: bool) -> (r: Result<(), Fault>)
    requires
        old(m).wf(),
    ensures
        final(m).wf(),
        final(m)@.tape == old(m)@.tape,
        final(m)@.input == old(m)@.input,
        final(m)@.output == old(m)@.output,
        (match r {
            Ok(u) => (if dir {
                scan_fwd(old(m)@.tape, old(m)@.ptr)
            } else {
                scan_back(old(m)@.tape, old(m)@.ptr)
            }) == Some(final(m)@.ptr),
            Err(e) => e == Fault::ScanOutOfRange && final(m)@ == old(m)@ && (if dir {
                scan_fwd(old(m)@.tape, old(m)@.ptr)
            } else {
                scan_back(old(m)@.tape, old(m)@.ptr)
            }) is None,
        }),
{
    let found = if dir {
        scan_ptr_fwd(&m.tape, m.ptr)
    } else {
        scan_ptr_back(&m.tape, m.ptr)
    };
    match found {
        Some(q) => {
            m.ptr = q;
            Ok(())
        },
        None => Err(Fault::ScanOutOfRange),
    }
}

/// Appends the decimal digits of n to the output bytes.
fn push_decimal(out: &mut Vec<u8>, n: usize)
    ensures
        final(out)@ == old(out)@ + dec_bytes(n as nat),
    decreases n,
{
    if n < 10 {
        out.push(48 + (n as u8));
        proof {
            assert(final(out)@ =~= old(out)@ + dec_bytes(n as nat));
        }
    } else {
        push_decimal(out, n / 10);
        out.push(48 + ((n % 10) as u8));
        proof {
            assert(final(out)@ =~= old(out)@ + dec_bytes(n as nat));
        }
    }
}

/// Emits the dump line: every index from 0 up to one past the last nonzero
/// cell, space-separated, then a line break.
fn dump_state(m: &mut Machine)
    requires
        old(m).wf(),
    ensures
        final(m).wf(),
        final(m)@.tape == old(m)@.tape,
        final(m)@.ptr == old(m)@.ptr,
        final(m)@.input == old(m)@.input,
        final(m)@.output == old(m)@.output + dump_bytes(old(m)@.tape),
{
    let ghost tape = m@.tape;
    let ghost out0 = m@.output;
    let mut j: usize = TAPE_LEN;
    while j > 0 && m.tape[j - 1] == 0
        invariant
            m.wf(),
            m@ == old(m)@,
            tape == old(m)@.tape,
            j <= TAPE_LEN,
            dump_limit(tape, TAPE_LEN as int) == dump_limit(tape, j as int),
        decreases j,
    {
        j -= 1;
    }
    proof {
        assert(dump_limit(tape, TAPE_LEN as int) == j as int);
    }
    let k = j;
    let mut i: usize = 0;
    proof {
        assert(out0 + index_text(0) =~= out0);
    }
    while i < k
        invariant
            m.wf(),
            i <= k,
            tape == old(m)@.tape,
            out0 == old(m)@.output,
            m@.tape == tape,
            m@.ptr == old(m)@.ptr,
            m@.input == old(m)@.input,
            m@.output == out0 + index_text(i as nat),
        decreases k - i,
    {
        let ghost before = m@.output;
        push_decimal(&mut m.output, i);
        m.output.push(32u8);
        proof {
            assert(m@.output =~= before + dec_bytes(i as nat).push(32u8));
            assert((out0 + index_text(i as nat)) + dec_bytes(i as nat).push(32u8) =~= out0
                + index_text((i + 1) as nat));
        }
        i += 1;
    }
    m.output.push(10u8);
    proof {
        assert(m@.output =~= out0 + dump_bytes(tape));
    }
}

/// One instruction against the machine: exactly what `step_one` says of
/// it, for the same fuel.
fn execute_one(ins: &Instruction, m: &mut Machine, fuel: u64) -> (r: RunStatus)
    requires
        old(m).wf(),
    ensures
        final(m).wf(),
        step_one(*ins, old(m)@, fuel as nat) == status_outcome(r, final(m)@),
    decreases fuel, 0int, 0int,
{
    match ins {
        Instruction::Move(o) => {
            m.ptr = apply_move(m.ptr, *o);
            RunStatus::Done
        },
        Instruction::Add(c) => {
            let v = m.tape[m.ptr];
            let w = cell_add_exec(v, *c);
            m.tape.set(m.ptr, w);
            RunStatus::Done
        },
        Instruction::Sub(c) => {
            let v = m.tape[m.ptr];
            let w = cell_sub_exec(v, *c);
            m.tape.set(m.ptr, w);
            RunStatus::Done
        },
        Instruction::Write => {
            let v = m.tape[m.ptr];
            let ghost before = m@.output;
            m.output.push(v);
            proof {
                assert(m@.output =~= before + seq![v]);
            }
            RunStatus::Done
        },
        Instruction::Read => {
            if m.input.len() == 0 {
                RunStatus::Faulted(Fault::InputExhausted)
            } else {
                let ghost in0 = m@.input;
                let b = m.input.remove(0);
                m.tape.set(m.ptr, b);
                proof {
                    assert(m@.input =~= in0.drop_first());
                }
                RunStatus::Done
            }
        },
        Instruction::ResetCell => {
            m.tape.set(m.ptr, 0u8);
            RunStatus::Done
        },
        Instruction::ScanCells(dir) => {
            match scan_cells(m, *dir) {
                Ok(u) => RunStatus::Done,
                Err(e) => RunStatus::Faulted(e),
            }
        },
        Instruction::TapeState => {
            dump_state(m);
            RunStatus::Done
        },
        Instruction::Loop(body) => {
            let mut fu = fuel;
            let ghost m0 = m@;
            proof {
                assert(*ins == Instruction::Loop(*body));
            }
            while m.tape[m.ptr] != 0
                invariant
                    m.wf(),
                    fu <= fuel,
                    m0 == old(m)@,
                    *ins == Instruction::Loop(*body),
                    step_one(*ins, m0, fuel as nat) == step_one(*ins, m@, fu as nat),
                decreases fu,
            {
                if fu == 0 {
                    proof {
                        assert(step_one(*ins, m@, 0nat) == Outcome::More);
                    }
                    return RunStatus::OutOfFuel;
                }
                let ghost at_entry = m@;
                let st = execute(body, m, fu - 1);
                proof {
                    assert(step_seq(body@, at_entry, (fu - 1) as nat) == status_outcome(st, m@));
                    assert(step_one(*ins, at_entry, fu as nat) == (match step_seq(
                        body@,
                        at_entry,
                        (fu - 1) as nat,
                    ) {
                        Outcome::Halted(m2) => step_one(*ins, m2, (fu - 1) as nat),
                        other => other,
                    }));
                }
                match st {
                    RunStatus::Done => {},
                    _ => {
                        return st;
                    },
                }
                proof {
                    assert(step_one(*ins, at_entry, fu as nat) == step_one(
                        *ins,
                        m@,
                        (fu - 1) as nat,
                    ));
                }
                fu -= 1;
            }
            RunStatus::Done
        },
    }
}

/// Runs the instruction sequence to completion against the machine,
/// recursing into loop bodies: exactly what the semantics `step_seq` says
/// of the program within the given fuel. Done and the machine's new state
/// where the semantics halts; the same fault where it faults (the input
/// channel exhausted on a read, or a scan off the tape); out of fuel
/// exactly where the semantics has no verdict within the budget.
pub fn execute(instructions: &Vec<Instruction>, m: &mut Machine, fuel: u64) -> (r: RunStatus)
    requires
        old(m).wf(),
    ensures
        final(m).wf(),
        step_seq(instructions@, old(m)@, fuel as nat) == status_outcome(r, final(m)@),
    decreases fuel, 1int, instructions@.len(),
{
    let ghost m0 = m@;
    let n = instructions.len();
    let mut idx: usize = 0;
    proof {
        assert(instructions@.skip(0) =~= instructions@);
    }
    while idx < n
        invariant
            old(m)@ == m0,
            n == instructions@.len(),
            idx <= n,
            m.wf(),
            step_seq(instructions@, m0, fuel as nat) == step_seq(
                instructions@.skip(idx as int),
                m@,
                fuel as nat,
            ),
        decreases n - idx,
    {
        let ins = &instructions[idx];
        proof {
            assert(instructions@.skip(idx as int)[0] == instructions@[idx as int]);
            assert(instructions@.skip(idx as int).drop_first() =~= instructions@.skip(
                idx as int + 1,
            ));
        }
        let st = execute_one(ins, m, fuel);
        match st {
            RunStatus::Done => {},
            _ => {
                return st;
            },
        }
        idx += 1;
    }
    proof {
        assert(instructions@.skip(n as int) =~= Seq::<Instruction>::empty());
    }
    RunStatus::Done
}

} // verus!
