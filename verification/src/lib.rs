//! An interpreter for a minimal, symbol-based language over a fixed-size
//! circular byte tape. Source text is tokenized into a flat sequence of
//! primitive operations, peephole-optimized, parsed into a nested
//! instruction tree, and executed against the tape with a movable data
//! pointer.

use vstd::prelude::*;

pub mod executor;
pub mod laws;
pub mod machine;
pub mod ops;
pub mod optimizer;
pub mod parser;
pub mod semantics;
pub mod tokenizer;

use crate::executor::execute;
use crate::executor::RunStatus;
use crate::machine::init_view;
use crate::machine::Machine;
use crate::ops::Fault;
use crate::ops::Instruction;
use crate::optimizer::opt_from;
use crate::optimizer::optimize_opcodes;
use crate::parser::parse;
use crate::parser::parse_fault;
use crate::parser::parses_to;
use crate::semantics::step_seq;
use crate::semantics::Outcome;
use crate::tokenizer::spec_tokenize;
use crate::tokenizer::tokenize;

verus! {

/// How a whole pipeline run over one source text ended: with the output
/// bytes, with a fault, or undecided because the step budget ran out.
#[derive(Debug, PartialEq)]
pub enum RunOutcome {
    Output(Vec<u8>),
    Faulted(Fault),
    OutOfFuel,
}

/// The full pipeline over one source text: tokenize, optimize, parse and
/// execute against a fresh machine holding the given input bytes. Returns
/// the run's whole output on success; the parse fault exactly when the
/// optimized operation sequence has one; the execution fault exactly when
/// the semantics of the parsed program faults; and gives up only where the
/// fuel runs out before the semantics settles.
pub fn run(source: &str, input: Vec<u8>, fuel: u64) -> (r: RunOutcome)
    requires
        source@.len() <= 0x7fff_ffff,
    ensures
        ({
            let ops = opt_from(spec_tokenize(source@), 0);
            let hi = ops.len() as int;
            match r {
                RunOutcome::Output(out) => parse_fault(ops, 0, hi) is None && (exists|
                    prog: Seq<Instruction>,
                |
                    #[trigger] parses_to(ops, 0, hi, prog) && (step_seq(
                        prog,
                        init_view(input@),
                        fuel as nat,
                    ) matches Outcome::Halted(end) && end.output == out@)),
                RunOutcome::Faulted(e) => parse_fault(ops, 0, hi) == Some(e) || (parse_fault(
                    ops,
                    0,
                    hi,
                ) is None && (exists|prog: Seq<Instruction>|
                    #[trigger] parses_to(ops, 0, hi, prog) && step_seq(
                        prog,
                        init_view(input@),
                        fuel as nat,
                    ) == Outcome::Faulted(e))),
                RunOutcome::OutOfFuel => parse_fault(ops, 0, hi) is None && (exists|
                    prog: Seq<Instruction>,
                |
                    #[trigger] parses_to(ops, 0, hi, prog) && step_seq(
                        prog,
                        init_view(input@),
                        fuel as nat,
                    ) == Outcome::More),
            }
        }),
{
    let mut opcodes = tokenize(source);
    optimize_opcodes(&mut opcodes);
    match parse(opcodes) {
        Err(e) => RunOutcome::Faulted(e),
        Ok(program) => {
            let ghost prog = program@;
            let mut m = Machine::new(input);
            let st = execute(&program, &mut m, fuel);
            proof {
                assert(parses_to(
                    opt_from(spec_tokenize(source@), 0),
                    0,
                    opt_from(spec_tokenize(source@), 0).len() as int,
                    prog,
                ));
            }
            match st {
                RunStatus::Done => RunOutcome::Output(m.output),
                RunStatus::Faulted(e) => RunOutcome::Faulted(e),
                RunStatus::OutOfFuel => RunOutcome::OutOfFuel,
            }
        },
    }
}

} // verus!
