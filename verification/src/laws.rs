//! Properties of the pipeline proved once and for all: wraparound of
//! counted runs and of pointer moves, what the two idioms do to the
//! machine, the faults lone brackets raise, and when skipping the
//! optimizer cannot change the parsed program.

use vstd::prelude::*;
use vstd::arithmetic::div_mod::lemma_mod_bound;
use vstd::arithmetic::div_mod::lemma_mod_multiples_vanish;
use vstd::arithmetic::div_mod::lemma_small_mod;

use crate::machine::MachineView;
use crate::machine::TAPE_LEN;
use crate::ops::Fault;
use crate::ops::Instruction;
use crate::ops::OpCode;
use crate::optimizer::clamp_span;
use crate::optimizer::is_count_op;
use crate::optimizer::is_step_op;
use crate::optimizer::opt_from;
use crate::optimizer::reset_idiom_at;
use crate::optimizer::run_ext;
use crate::optimizer::scan_idiom_at;
use crate::parser::find_close;
use crate::parser::parse_fault;
use crate::parser::parses_to;
use crate::parser::plain_instr;
use crate::semantics::cell_add;
use crate::semantics::cell_sub;
use crate::semantics::scan_back;
use crate::semantics::scan_fwd;
use crate::semantics::step_one;
use crate::semantics::step_seq;
use crate::semantics::Outcome;
use crate::tokenizer::spec_tokenize;

verus! {

/// In a sequence whose elements are all equal, the run starting at its
/// first element extends to its end.
proof fn lemma_const_run(ops: Seq<OpCode>, j: int)
    requires
        1 <= j <= ops.len(),
        forall|k: int| 0 <= k < ops.len() ==> #[trigger] ops[k] == ops[0],
    ensures
        run_ext(ops, 0, j) == ops.len(),
    decreases ops.len() - j,
{
    if j < ops.len() {
        lemma_const_run(ops, j + 1);
    }
}

/// A run of n equal increments or decrements optimizes to the single
/// counted operation carrying n modulo 256.
proof fn lemma_count_run_opt(op: OpCode, n: nat)
    requires
        is_count_op(op),
        n >= 1,
    ensures
        ({
            let ops = Seq::new(n, |k: int| op);
            let c = (n % 256) as u8;
            opt_from(ops, 0) == (if op == OpCode::Increment {
                seq![OpCode::Add(c)]
            } else {
                seq![OpCode::Sub(c)]
            })
        }),
{
    let ops = Seq::new(n, |k: int| op);
    let c = (n % 256) as u8;
    lemma_const_run(ops, 1);
    assert(!reset_idiom_at(ops, 0));
    assert(!scan_idiom_at(ops, 0));
    assert(clamp_span(run_ext(ops, 0, 1), 1, n as int) == n as int);
    assert(opt_from(ops, n as int) =~= Seq::<OpCode>::empty());
    let collapsed = if op == OpCode::Increment {
        OpCode::Add(c)
    } else {
        OpCode::Sub(c)
    };
    assert(seq![collapsed] + Seq::<OpCode>::empty() =~= seq![collapsed]);
}

/// A run of n increments (n at least 1) on an initially-zero current cell
/// nets exactly n % 256; a run of n decrements nets (256 - n % 256) % 256:
/// the whole pipeline, from the flat run to the executed effect, wraps
/// with 8-bit arithmetic.
pub proof fn counted_run_wraps(op: OpCode, n: nat, m: MachineView, fuel: nat)
    requires
        is_count_op(op),
        n >= 1,
        m.wf(),
        m.tape[m.ptr] == 0,
    ensures
        ({
            let ops = Seq::new(n, |k: int| op);
            let c = (n % 256) as u8;
            let ins = if op == OpCode::Increment {
                Instruction::Add(c)
            } else {
                Instruction::Sub(c)
            };
            let net: u8 = if op == OpCode::Increment {
                c
            } else {
                ((256 - n % 256) % 256) as u8
            };
            &&& opt_from(ops, 0) == (if op == OpCode::Increment {
                seq![OpCode::Add(c)]
            } else {
                seq![OpCode::Sub(c)]
            })
            &&& parses_to(opt_from(ops, 0), 0, 1, seq![ins])
            &&& step_seq(seq![ins], m, fuel) == Outcome::Halted(m.with_cell(net))
            &&& m.with_cell(net).tape[m.ptr] == net
        }),
{
    reveal_with_fuel(parses_to, 3);
    reveal_with_fuel(step_seq, 3);
    let c = (n % 256) as u8;
    lemma_count_run_opt(op, n);
    let ins = if op == OpCode::Increment {
        Instruction::Add(c)
    } else {
        Instruction::Sub(c)
    };
    assert(seq![ins].drop_first().len() == 0);
    lemma_small_mod(c as nat, 256);
    assert(cell_add(0, c) == c);
    lemma_mod_multiples_vanish(1, 0 - c, 256);
    assert(cell_sub(0, c) == ((256 - c) % 256) as u8);
    assert(step_one(ins, m, fuel) == Outcome::Halted(
        m.with_cell(
            if op == OpCode::Increment {
                c
            } else {
                ((256 - n % 256) % 256) as u8
            },
        ),
    ));
}

/// A Move wraps the pointer modulo the tape length, for offsets of either
/// sign and of any magnitude, and the wrapped pointer is in range.
pub proof fn move_wraps_pointer(o: i32, m: MachineView, fuel: nat)
    requires
        m.wf(),
    ensures
        step_one(Instruction::Move(o), m, fuel) == Outcome::Halted(
            m.with_ptr((m.ptr + o) % (TAPE_LEN as int)),
        ),
        0 <= (m.ptr + o) % (TAPE_LEN as int) < TAPE_LEN,
{
    lemma_mod_bound(m.ptr + o, TAPE_LEN as int);
}

/// The reset idiom, a loop around one increment or decrement, optimizes to
/// the reset operation, whose execution leaves the current cell at exactly
/// zero and the pointer where it was, whatever the cell held.
pub proof fn reset_idiom_zeroes_cell(middle: OpCode, m: MachineView, fuel: nat)
    requires
        is_count_op(middle),
        m.wf(),
    ensures
        ({
            let ops = seq![OpCode::LoopBegin, middle, OpCode::LoopEnd];
            &&& opt_from(ops, 0) == seq![OpCode::ResetCell]
            &&& parses_to(seq![OpCode::ResetCell], 0, 1, seq![Instruction::ResetCell])
            &&& step_seq(seq![Instruction::ResetCell], m, fuel) == Outcome::Halted(
                m.with_cell(0u8),
            )
            &&& m.with_cell(0u8).tape[m.ptr] == 0
            &&& m.with_cell(0u8).ptr == m.ptr
        }),
{
    reveal_with_fuel(parses_to, 3);
    reveal_with_fuel(step_seq, 3);
    reveal_with_fuel(opt_from, 3);
    let ops = seq![OpCode::LoopBegin, middle, OpCode::LoopEnd];
    assert(reset_idiom_at(ops, 0));
    assert(opt_from(ops, 3) =~= Seq::<OpCode>::empty());
    assert(seq![OpCode::ResetCell] + Seq::<OpCode>::empty() =~= seq![OpCode::ResetCell]);
    assert(seq![Instruction::ResetCell].drop_first().len() == 0);
}

/// Wherever a forward scan finds a cell, that cell is zero and every cell
/// from the start up to it is nonzero; where it finds none, every cell
/// from the start to the tape's end is nonzero.
pub proof fn lemma_scan_fwd_props(tape: Seq<u8>, p: int)
    requires
        0 <= p < tape.len(),
    ensures
        (match scan_fwd(tape, p) {
            Some(q) => p <= q < tape.len() && tape[q] == 0 && (forall|t: int|
                p <= t < q ==> tape[t] != 0),
            None => forall|t: int| p <= t < tape.len() ==> tape[t] != 0,
        }),
    decreases tape.len() - p,
{
    if tape[p] == 0 {
    } else if p == tape.len() - 1 {
    } else {
        lemma_scan_fwd_props(tape, p + 1);
    }
}

/// The backward counterpart of `lemma_scan_fwd_props`.
pub proof fn lemma_scan_back_props(tape: Seq<u8>, p: int)
    requires
        0 <= p < tape.len(),
    ensures
        (match scan_back(tape, p) {
            Some(q) => 0 <= q <= p && tape[q] == 0 && (forall|t: int|
                q < t <= p ==> tape[t] != 0),
            None => forall|t: int| 0 <= t <= p ==> tape[t] != 0,
        }),
    decreases p,
{
    if tape[p] == 0 {
    } else if p == 0 {
    } else {
        lemma_scan_back_props(tape, p - 1);
    }
}

/// The scan idiom, a loop around one pointer step, optimizes to the scan
/// operation, whose execution moves the pointer to the nearest zero cell
/// in that direction without altering any cell value, and faults exactly
/// when no zero cell lies in that direction.
pub proof fn scan_idiom_finds_nearest_zero(stepop: OpCode, m: MachineView, fuel: nat)
    requires
        is_step_op(stepop),
        m.wf(),
    ensures
        ({
            let dir = stepop == OpCode::IncrementPointer;
            let ops = seq![OpCode::LoopBegin, stepop, OpCode::LoopEnd];
            let found = if dir {
                scan_fwd(m.tape, m.ptr)
            } else {
                scan_back(m.tape, m.ptr)
            };
            &&& opt_from(ops, 0) == seq![OpCode::ScanCells(dir)]
            &&& parses_to(seq![OpCode::ScanCells(dir)], 0, 1, seq![Instruction::ScanCells(dir)])
            &&& (match found {
                Some(q) => {
                    &&& step_seq(seq![Instruction::ScanCells(dir)], m, fuel) == Outcome::Halted(
                        m.with_ptr(q),
                    )
                    &&& m.with_ptr(q).tape == m.tape
                    &&& m.tape[q] == 0
                    &&& (dir ==> m.ptr <= q && (forall|t: int| m.ptr <= t < q ==> m.tape[t] != 0))
                    &&& (!dir ==> q <= m.ptr && (forall|t: int| q < t <= m.ptr ==> m.tape[t] != 0))
                },
                None => step_seq(seq![Instruction::ScanCells(dir)], m, fuel) == Outcome::Faulted(
                    Fault::ScanOutOfRange,
                ),
            })
        }),
{
    reveal_with_fuel(parses_to, 3);
    reveal_with_fuel(step_seq, 3);
    reveal_with_fuel(opt_from, 3);
    let dir = stepop == OpCode::IncrementPointer;
    let ops = seq![OpCode::LoopBegin, stepop, OpCode::LoopEnd];
    assert(scan_idiom_at(ops, 0));
    assert(!reset_idiom_at(ops, 0));
    assert(opt_from(ops, 3) =~= Seq::<OpCode>::empty());
    assert(seq![OpCode::ScanCells(dir)] + Seq::<OpCode>::empty() =~= seq![OpCode::ScanCells(dir)]);
    assert(seq![Instruction::ScanCells(dir)].drop_first().len() == 0);
    if dir {
        lemma_scan_fwd_props(m.tape, m.ptr);
    } else {
        lemma_scan_back_props(m.tape, m.ptr);
    }
}

/// A lone closing bracket is the unmatched-closing fault at position 0; a
/// lone opening bracket is the unmatched-opening fault at position 0; the
/// optimizer leaves either alone.
pub proof fn lone_brackets_fault_at_zero()
    ensures
        spec_tokenize(seq![']']) == seq![OpCode::LoopEnd],
        spec_tokenize(seq!['[']) == seq![OpCode::LoopBegin],
        opt_from(seq![OpCode::LoopEnd], 0) == seq![OpCode::LoopEnd],
        opt_from(seq![OpCode::LoopBegin], 0) == seq![OpCode::LoopBegin],
        parse_fault(seq![OpCode::LoopEnd], 0, 1) == Some(Fault::UnmatchedClosing(0)),
        parse_fault(seq![OpCode::LoopBegin], 0, 1) == Some(Fault::UnmatchedOpening(0)),
{
    reveal_with_fuel(spec_tokenize, 3);
    reveal_with_fuel(opt_from, 3);
    reveal_with_fuel(parse_fault, 3);
    assert(seq![']'].drop_first().len() == 0);
    assert(seq!['['].drop_first().len() == 0);
    assert(spec_tokenize(seq![']']) =~= seq![OpCode::LoopEnd]);
    assert(spec_tokenize(seq!['[']) =~= seq![OpCode::LoopBegin]);
    assert(opt_from(seq![OpCode::LoopEnd], 1) =~= Seq::<OpCode>::empty());
    assert(opt_from(seq![OpCode::LoopBegin], 1) =~= Seq::<OpCode>::empty());
    assert(seq![OpCode::LoopEnd] + Seq::<OpCode>::empty() =~= seq![OpCode::LoopEnd]);
    assert(seq![OpCode::LoopBegin] + Seq::<OpCode>::empty() =~= seq![OpCode::LoopBegin]);
}

/// On a sequence without counted or pointer-step runs the optimizer is the
/// identity.
proof fn lemma_opt_identity_from(ops: Seq<OpCode>, i: int)
    requires
        0 <= i <= ops.len(),
        forall|k: int| 0 <= k < ops.len() ==> !is_count_op(#[trigger] ops[k]) && !is_step_op(ops[k]),
    ensures
        opt_from(ops, i) == ops.skip(i),
    decreases ops.len() - i,
{
    if i == ops.len() {
        assert(opt_from(ops, i) =~= ops.skip(i));
    } else {
        assert(!reset_idiom_at(ops, i));
        assert(!scan_idiom_at(ops, i));
        lemma_opt_identity_from(ops, i + 1);
        assert(seq![ops[i]] + ops.skip(i + 1) =~= ops.skip(i));
    }
}

/// Skipping the optimizer cannot change the parsed program — hence the
/// run's observable behavior — on a source whose operations give the
/// optimizer no run to collapse: there the rewrite is the identity, so
/// parsing the raw sequence and parsing the optimized one relate every
/// program in exactly the same way.
pub proof fn unoptimized_parse_agrees_without_runs(ops: Seq<OpCode>)
    requires
        forall|k: int| 0 <= k < ops.len() ==> !is_count_op(#[trigger] ops[k]) && !is_step_op(ops[k]),
    ensures
        opt_from(ops, 0) == ops,
        forall|prog: Seq<Instruction>|
            parses_to(opt_from(ops, 0), 0, opt_from(ops, 0).len() as int, prog) <==> parses_to(
                ops,
                0,
                ops.len() as int,
                prog,
            ),
{
    lemma_opt_identity_from(ops, 0);
    assert(ops.skip(0) =~= ops);
}

/// On a source whose operations give the optimizer nothing to collapse,
/// skipping the optimizer cannot change observable behavior: a program
/// parsed from the raw operation sequence and one parsed from its
/// optimized form run alike from every state, whatever the fuel.
pub proof fn unoptimized_run_agrees_without_runs(
    ops: Seq<OpCode>,
    p1: Seq<Instruction>,
    p2: Seq<Instruction>,
    m: MachineView,
    fuel: nat,
)
    requires
        forall|k: int| 0 <= k < ops.len() ==> !is_count_op(#[trigger] ops[k]) && !is_step_op(ops[k]),
        parses_to(opt_from(ops, 0), 0, opt_from(ops, 0).len() as int, p1),
        parses_to(ops, 0, ops.len() as int, p2),
    ensures
        step_seq(p1, m, fuel) == step_seq(p2, m, fuel),
{
    unoptimized_parse_agrees_without_runs(ops);
    parsed_program_behavior_is_determined(ops, p1, p2, m, fuel);
}

/// Two loop instructions whose bodies parse from the same operation range
/// behave alike, whatever state, fuel and cell values the run meets.
proof fn lemma_loop_bodies_agree(
    ops: Seq<OpCode>,
    lo: int,
    hi: int,
    i1: Instruction,
    i2: Instruction,
    m: MachineView,
    fuel: nat,
)
    requires
        0 <= lo <= hi <= ops.len(),
        i1 matches Instruction::Loop(b1) && parses_to(ops, lo, hi, b1@),
        i2 matches Instruction::Loop(b2) && parses_to(ops, lo, hi, b2@),
    ensures
        step_one(i1, m, fuel) == step_one(i2, m, fuel),
    decreases fuel, 0int, 0int,
{
    match (i1, i2) {
        (Instruction::Loop(b1), Instruction::Loop(b2)) => {
            if m.tape[m.ptr] == 0 {
            } else if fuel == 0 {
            } else {
                lemma_parsed_programs_agree(ops, lo, hi, b1@, b2@, m, (fuel - 1) as nat);
                match step_seq(b1@, m, (fuel - 1) as nat) {
                    Outcome::Halted(m2) => {
                        lemma_loop_bodies_agree(ops, lo, hi, i1, i2, m2, (fuel - 1) as nat);
                    },
                    _ => {},
                }
            }
        },
        _ => {},
    }
}

/// Two programs that the parse relation admits for the same operation
/// range have identical semantics, whatever state and fuel.
proof fn lemma_parsed_programs_agree(
    ops: Seq<OpCode>,
    lo: int,
    hi: int,
    p1: Seq<Instruction>,
    p2: Seq<Instruction>,
    m: MachineView,
    fuel: nat,
)
    requires
        0 <= lo <= hi <= ops.len(),
        parses_to(ops, lo, hi, p1),
        parses_to(ops, lo, hi, p2),
    ensures
        step_seq(p1, m, fuel) == step_seq(p2, m, fuel),
    decreases fuel, 1int, hi - lo,
{
    if lo == hi {
    } else if ops[lo] == OpCode::LoopBegin {
        match find_close(ops, lo + 1, hi, 1) {
            Some(j) => {
                lemma_loop_bodies_agree(ops, lo + 1, j, p1[0], p2[0], m, fuel);
                match step_one(p1[0], m, fuel) {
                    Outcome::Halted(m2) => {
                        lemma_parsed_programs_agree(
                            ops,
                            j + 1,
                            hi,
                            p1.drop_first(),
                            p2.drop_first(),
                            m2,
                            fuel,
                        );
                    },
                    _ => {},
                }
            },
            None => {
                assert(false);
            },
        }
    } else {
        match plain_instr(ops[lo]) {
            Some(ins) => {
                match step_one(ins, m, fuel) {
                    Outcome::Halted(m2) => {
                        lemma_parsed_programs_agree(
                            ops,
                            lo + 1,
                            hi,
                            p1.drop_first(),
                            p2.drop_first(),
                            m2,
                            fuel,
                        );
                    },
                    _ => {},
                }
            },
            None => {
                lemma_parsed_programs_agree(ops, lo + 1, hi, p1, p2, m, fuel);
            },
        }
    }
}

/// Parsing determines behavior: any two programs that the parse relation
/// admits for the same operation sequence run alike from every state,
/// whatever the fuel.
pub proof fn parsed_program_behavior_is_determined(
    ops: Seq<OpCode>,
    p1: Seq<Instruction>,
    p2: Seq<Instruction>,
    m: MachineView,
    fuel: nat,
)
    requires
        parses_to(ops, 0, ops.len() as int, p1),
        parses_to(ops, 0, ops.len() as int, p2),
    ensures
        step_seq(p1, m, fuel) == step_seq(p2, m, fuel),
{
    lemma_parsed_programs_agree(ops, 0, ops.len() as int, p1, p2, m, fuel);
}

} // verus!
