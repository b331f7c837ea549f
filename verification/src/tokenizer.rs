//! Tokenization: raw source text to the flat operation sequence. The nine
//! recognized symbols map to primitive operations; every other character
//! is silently dropped.

use vstd::prelude::*;
use vstd::string::StrSliceExecFns;

use crate::ops::OpCode;

verus! {

/// The operation a single source character stands for, if any.
pub open spec fn symbol_op(c: char) -> Option<OpCode> {
    if c == '>' {
        Some(OpCode::IncrementPointer)
    } else if c == '<' {
        Some(OpCode::DecrementPointer)
    } else if c == '+' {
        Some(OpCode::Increment)
    } else if c == '-' {
        Some(OpCode::Decrement)
    } else if c == '.' {
        Some(OpCode::Write)
    } else if c == ',' {
        Some(OpCode::Read)
    } else if c == '[' {
        Some(OpCode::LoopBegin)
    } else if c == ']' {
        Some(OpCode::LoopEnd)
    } else if c == '|' {
        Some(OpCode::TapeState)
    } else {
        None
    }
}

/// The operation sequence of a source text: the recognized symbols in
/// source order, all other characters dropped.
pub open spec fn spec_tokenize(s: Seq<char>) -> Seq<OpCode>
    decreases s.len(),
{
    if s.len() == 0 {
        Seq::empty()
    } else {
        match symbol_op(s[0]) {
            Some(op) => seq![op] + spec_tokenize(s.drop_first()),
            None => spec_tokenize(s.drop_first()),
        }
    }
}

/// Maps raw source text to the flat operation sequence, discarding all
/// unrecognized characters. Purely functional; no failure mode.
pub fn tokenize(source: &str) -> (r: Vec<OpCode>)
    ensures
        r@ == spec_tokenize(source@),
        r@.len() <= source@.len(),
{
    let n = source.unicode_len();
    let mut out: Vec<OpCode> = Vec::new();
    let mut i: usize = 0;
    proof {
        assert(Seq::<OpCode>::empty() + spec_tokenize(source@) =~= spec_tokenize(source@));
        assert(source@.skip(0) =~= source@);
    }
    while i < n
        invariant
            n == source@.len(),
            i <= n,
            out@ + spec_tokenize(source@.skip(i as int)) == spec_tokenize(source@),
            out@.len() <= i,
        decreases n - i,
    {
        let c = source.get_char(i);
        let ghost rest = source@.skip(i as int);
        proof {
            assert(rest[0] == source@[i as int]);
            assert(rest.drop_first() =~= source@.skip(i as int + 1));
        }
        let op: Option<OpCode> = match c {
            '>' => Some(OpCode::IncrementPointer),
            '<' => Some(OpCode::DecrementPointer),
            '+' => Some(OpCode::Increment),
            '-' => Some(OpCode::Decrement),
            '.' => Some(OpCode::Write),
            ',' => Some(OpCode::Read),
            '[' => Some(OpCode::LoopBegin),
            ']' => Some(OpCode::LoopEnd),
            '|' => Some(OpCode::TapeState),
            _ => None,
        };
        proof {
            assert(op == symbol_op(c));
        }
        if let Some(o) = op {
            let ghost prev = out@;
            out.push(o);
            proof {
                assert(out@ =~= prev + seq![o]);
                assert((prev + seq![o]) + spec_tokenize(source@.skip(i as int + 1)) =~= prev + (
                seq![o] + spec_tokenize(source@.skip(i as int + 1))));
            }
        }
        i += 1;
    }
    proof {
        assert(source@.skip(n as int) =~= Seq::<char>::empty());
        assert(out@ + spec_tokenize(source@.skip(n as int)) =~= out@);
    }
    out
}

} // verus!
