//! The peephole optimizer: a single left-to-right pass over the flat
//! operation sequence. At each position the two three-operation idioms are
//! tried first; failing those, a maximal run of increments or decrements
//! collapses to one counted `Add`/`Sub`, and a maximal run of pointer
//! steps collapses to one signed `Move` (or to nothing when its net
//! offset is zero). Anything else is left untouched.

use vstd::prelude::*;

use crate::ops::OpCode;

verus! {

/// A cell-count operation: one increment or one decrement.
pub open spec fn is_count_op(op: OpCode) -> bool {
    op == OpCode::Increment || op == OpCode::Decrement
}

/// A pointer-step operation: one step forward or backward.
pub open spec fn is_step_op(op: OpCode) -> bool {
    op == OpCode::IncrementPointer || op == OpCode::DecrementPointer
}

/// The window at i is the reset idiom: a loop whose whole body is a single
/// increment or decrement, equivalent to zeroing the cell.
pub open spec fn reset_idiom_at(ops: Seq<OpCode>, i: int) -> bool {
    &&& 0 <= i
    &&& i + 2 < ops.len()
    &&& ops[i] == OpCode::LoopBegin
    &&& is_count_op(ops[i + 1])
    &&& ops[i + 2] == OpCode::LoopEnd
}

/// The window at i is the scan idiom: a loop whose whole body is a single
/// pointer step, equivalent to scanning for a zero cell in that direction.
pub open spec fn scan_idiom_at(ops: Seq<OpCode>, i: int) -> bool {
    &&& 0 <= i
    &&& i + 2 < ops.len()
    &&& ops[i] == OpCode::LoopBegin
    &&& is_step_op(ops[i + 1])
    &&& ops[i + 2] == OpCode::LoopEnd
}

/// One past the end of the run of elements strictly equal to ops[i],
/// scanning from j.
pub open spec fn run_ext(ops: Seq<OpCode>, i: int, j: int) -> int
    decreases ops.len() - j,
{
    if 0 <= j < ops.len() && ops[j] == ops[i] {
        run_ext(ops, i, j + 1)
    } else {
        j
    }
}

/// One past the end of the run of pointer-step operations scanning from j.
pub open spec fn step_ext(ops: Seq<OpCode>, j: int) -> int
    decreases ops.len() - j,
{
    if 0 <= j < ops.len() && is_step_op(ops[j]) {
        step_ext(ops, j + 1)
    } else {
        j
    }
}

/// The pointer movement one operation contributes to a run's net offset.
pub open spec fn step_delta(op: OpCode) -> int {
    if op == OpCode::IncrementPointer {
        1
    } else if op == OpCode::DecrementPointer {
        -1
    } else {
        0
    }
}

/// The net signed offset of the operations in ops[i..j).
pub open spec fn net_offset(ops: Seq<OpCode>, i: int, j: int) -> int
    decreases j - i,
{
    if i < j {
        net_offset(ops, i, j - 1) + step_delta(ops[j - 1])
    } else {
        0
    }
}

/// e clamped into [lo, hi]; the run-end scans stay in that span anyway,
/// and the clamp keeps the rewrite's recursion visibly bounded.
pub open spec fn clamp_span(e: int, lo: int, hi: int) -> int {
    if e < lo {
        lo
    } else if e > hi {
        hi
    } else {
        e
    }
}

/// The optimized form of the suffix of ops starting at i: idioms first,
/// then counted runs (counts wrap modulo 256), then pointer runs (a zero
/// net offset leaves nothing), then the operation itself.
pub open spec fn opt_from(ops: Seq<OpCode>, i: int) -> Seq<OpCode>
    decreases ops.len() - i,
{
    if !(0 <= i < ops.len()) {
        Seq::empty()
    } else if reset_idiom_at(ops, i) {
        seq![OpCode::ResetCell] + opt_from(ops, i + 3)
    } else if scan_idiom_at(ops, i) {
        seq![OpCode::ScanCells(ops[i + 1] == OpCode::IncrementPointer)] + opt_from(ops, i + 3)
    } else if is_count_op(ops[i]) {
        let e = clamp_span(run_ext(ops, i, i + 1), i + 1, ops.len() as int);
        let c = ((e - i) % 256) as u8;
        let collapsed = if ops[i] == OpCode::Increment {
            OpCode::Add(c)
        } else {
            OpCode::Sub(c)
        };
        seq![collapsed] + opt_from(ops, e)
    } else if is_step_op(ops[i]) {
        let e = clamp_span(step_ext(ops, i), i + 1, ops.len() as int);
        let o = net_offset(ops, i, e);
        (if o == 0 {
            Seq::<OpCode>::empty()
        } else {
            seq![OpCode::Move(o as i32)]
        }) + opt_from(ops, e)
    } else {
        seq![ops[i]] + opt_from(ops, i + 1)
    }
}

/// Rewrites the operation sequence in place into its optimized form. An
/// already-optimized or empty sequence comes out unchanged; there is no
/// failure mode.
pub fn optimize_opcodes(opcodes: &mut Vec<OpCode>)
    requires
        old(opcodes)@.len() <= 0x7fff_ffff,
    ensures
        final(opcodes)@ == opt_from(old(opcodes)@, 0),
{
    let ghost orig = opcodes@;
    let n = opcodes.len();
    let mut out: Vec<OpCode> = Vec::new();
    let mut i: usize = 0;
    proof {
        assert(Seq::<OpCode>::empty() + opt_from(orig, 0) =~= opt_from(orig, 0));
    }
    while i < n
        invariant
            orig == opcodes@,
            n == orig.len(),
            n <= 0x7fff_ffff,
            i <= n,
            out@ + opt_from(orig, i as int) == opt_from(orig, 0),
        decreases n - i,
    {
        let ghost prev = out@;
        let op = opcodes[i];
        if i + 2 < n && op == OpCode::LoopBegin && (opcodes[i + 1] == OpCode::Increment
            || opcodes[i + 1] == OpCode::Decrement) && opcodes[i + 2] == OpCode::LoopEnd {
            out.push(OpCode::ResetCell);
            proof {
                assert(reset_idiom_at(orig, i as int));
                assert((prev + seq![OpCode::ResetCell]) + opt_from(orig, i as int + 3) =~= prev + (
                seq![OpCode::ResetCell] + opt_from(orig, i as int + 3)));
            }
            i += 3;
        } else if i + 2 < n && op == OpCode::LoopBegin && (opcodes[i + 1]
            == OpCode::IncrementPointer || opcodes[i + 1] == OpCode::DecrementPointer) && opcodes[i
            + 2] == OpCode::LoopEnd {
            let dir = opcodes[i + 1] == OpCode::IncrementPointer;
            out.push(OpCode::ScanCells(dir));
            proof {
                assert(scan_idiom_at(orig, i as int));
                assert((prev + seq![OpCode::ScanCells(dir)]) + opt_from(orig, i as int + 3) =~= prev
                    + (seq![OpCode::ScanCells(dir)] + opt_from(orig, i as int + 3)));
            }
            i += 3;
        } else if op == OpCode::Increment || op == OpCode::Decrement {
            let mut j = i + 1;
            while j < n && opcodes[j] == opcodes[i]
                invariant
                    orig == opcodes@,
                    n == orig.len(),
                    i < j <= n,
                    run_ext(orig, i as int, j as int) == run_ext(orig, i as int, i as int + 1),
                decreases n - j,
            {
                j += 1;
            }
            proof {
                assert(run_ext(orig, i as int, j as int) == j as int);
                assert(!reset_idiom_at(orig, i as int) && !scan_idiom_at(orig, i as int));
                assert(clamp_span(run_ext(orig, i as int, i as int + 1), i as int + 1, n as int)
                    == j as int);
            }
            let c = ((j - i) % 256) as u8;
            let collapsed = if op == OpCode::Increment {
                OpCode::Add(c)
            } else {
                OpCode::Sub(c)
            };
            out.push(collapsed);
            proof {
                assert((prev + seq![collapsed]) + opt_from(orig, j as int) =~= prev + (
                seq![collapsed] + opt_from(orig, j as int)));
            }
            i = j;
        } else if op == OpCode::IncrementPointer || op == OpCode::DecrementPointer {
            let mut j = i;
            let mut fwd: usize = 0;
            let mut back: usize = 0;
            while j < n && (opcodes[j] == OpCode::IncrementPointer || opcodes[j]
                == OpCode::DecrementPointer)
                invariant
                    orig == opcodes@,
                    n == orig.len(),
                    i <= j <= n,
                    step_ext(orig, j as int) == step_ext(orig, i as int),
                    fwd + back == j - i,
                    fwd - back == net_offset(orig, i as int, j as int),
                decreases n - j,
            {
                if opcodes[j] == OpCode::IncrementPointer {
                    fwd += 1;
                } else {
                    back += 1;
                }
                j += 1;
            }
            proof {
                assert(step_ext(orig, j as int) == j as int);
                assert(!reset_idiom_at(orig, i as int) && !scan_idiom_at(orig, i as int));
                assert(j > i);
                assert(clamp_span(step_ext(orig, i as int), i as int + 1, n as int) == j as int);
            }
            if fwd > back {
                let d = fwd - back;
                let off = d as i32;
                out.push(OpCode::Move(off));
                proof {
                    assert((prev + seq![OpCode::Move(off)]) + opt_from(orig, j as int) =~= prev + (
                    seq![OpCode::Move(off)] + opt_from(orig, j as int)));
                }
            } else if back > fwd {
                let d = back - fwd;
                let off = -(d as i32);
                out.push(OpCode::Move(off));
                proof {
                    assert(off == net_offset(orig, i as int, j as int) as i32);
                    assert((prev + seq![OpCode::Move(off)]) + opt_from(orig, j as int) =~= prev + (
                    seq![OpCode::Move(off)] + opt_from(orig, j as int)));
                }
            } else {
                proof {
                    assert(Seq::<OpCode>::empty() + opt_from(orig, j as int) =~= opt_from(
                        orig,
                        j as int,
                    ));
                }
            }
            i = j;
        } else {
            out.push(op);
            proof {
                assert(!reset_idiom_at(orig, i as int) && !scan_idiom_at(orig, i as int));
                assert((prev + seq![op]) + opt_from(orig, i as int + 1) =~= prev + (seq![op]
                    + opt_from(orig, i as int + 1)));
            }
            i += 1;
        }
    }
    proof {
        assert(out@ + opt_from(orig, n as int) =~= out@);
    }
    *opcodes = out;
}

} // verus!
