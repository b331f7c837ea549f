//! The executor's state: a fixed-length tape of byte cells, the data
//! pointer, the remaining input bytes, and the output emitted so far. The
//! tape and pointer are the run's only mutable state, owned by one
//! executor for one run.

use vstd::prelude::*;

verus! {

/// The number of cells on the tape.
pub const TAPE_LEN: usize = 30000;

/// One run's mutable state.
pub struct Machine {
    /// The cells, all zero at the start of a run.
    pub tape: Vec<u8>,
    /// The data pointer: the index of the cell under operation.
    pub ptr: usize,
    /// The bytes the input channel still holds, in arrival order.
    pub input: Vec<u8>,
    /// The bytes emitted so far.
    pub output: Vec<u8>,
}

/// The mathematical value of a machine state.
pub struct MachineView {
    pub tape: Seq<u8>,
    pub ptr: int,
    pub input: Seq<u8>,
    pub output: Seq<u8>,
}

impl View for Machine {
    type V = MachineView;

    open spec fn view(&self) -> MachineView {
        MachineView {
            tape: self.tape@,
            ptr: self.ptr as int,
            input: self.input@,
            output: self.output@,
        }
    }
}

impl MachineView {
    /// Well-formed: a full-size tape and an in-range pointer.
    pub open spec fn wf(self) -> bool {
        self.tape.len() == TAPE_LEN && 0 <= self.ptr < TAPE_LEN
    }

    /// The same state with the pointer moved.
    pub open spec fn with_ptr(self, p: int) -> MachineView {
        MachineView { ptr: p, ..self }
    }

    /// The same state with the current cell set to v.
    pub open spec fn with_cell(self, v: u8) -> MachineView {
        MachineView { tape: self.tape.update(self.ptr, v), ..self }
    }

    /// The same state with bytes appended to the output.
    pub open spec fn with_output(self, emitted: Seq<u8>) -> MachineView {
        MachineView { output: self.output + emitted, ..self }
    }

    /// The same state after one input byte was consumed into the cell.
    pub open spec fn with_consumed_input(self) -> MachineView {
        MachineView {
            tape: self.tape.update(self.ptr, self.input[0]),
            input: self.input.drop_first(),
            ..self
        }
    }
}

/// An all-zero tape of full length.
pub open spec fn zero_tape() -> Seq<u8> {
    Seq::new(TAPE_LEN as nat, |k: int| 0u8)
}

/// The state every run starts from: zeroed tape, pointer at zero, the
/// given input still unread, nothing emitted.
pub open spec fn init_view(input: Seq<u8>) -> MachineView {
    MachineView { tape: zero_tape(), ptr: 0, input: input, output: Seq::empty() }
}

impl Machine {
    /// Well-formed: a full-size tape and an in-range pointer.
    pub open spec fn wf(&self) -> bool {
        self@.wf()
    }

    /// A fresh machine holding the given input.
    pub fn new(input: Vec<u8>) -> (m: Machine)
        ensures
            m.wf(),
            m@ == init_view(input@),
    {
        let mut tape: Vec<u8> = Vec::new();
        let mut k: usize = 0;
        while k < TAPE_LEN
            invariant
                k <= TAPE_LEN,
                tape@.len() == k,
                forall|i: int| 0 <= i < k ==> tape@[i] == 0u8,
            decreases TAPE_LEN - k,
        {
            tape.push(0u8);
            k += 1;
        }
        proof {
            assert(tape@ =~= zero_tape());
        }
        let m = Machine { tape, ptr: 0, input, output: Vec::new() };
        proof {
            assert(m@.output =~= Seq::<u8>::empty());
        }
        m
    }
}

} // verus!
