//! Laws of the engine, proved once and for all inputs: the effect of
//! each single instruction on a fresh machine, and the wraparound
//! discipline of the 8-bit cells.

use vstd::prelude::*;

use crate::semantics::{
    loaded, step, wrap_dec, wrap_inc, Fault, State, StepResult, OP_CLOSE, OP_DOT, OP_LEFT,
    OP_MINUS, OP_OPEN, OP_PLUS, OP_RIGHT,
};

verus! {

/// Law: one dispatch step on a freshly constructed engine that holds a
/// single instruction changes the machine exactly as specified and in
/// no other way.  `>` moves the pointer, `+` and `-` both append a cell
/// valued 1 to the empty tape, `[` falls through (the absent cell does
/// not read as zero), an unrecognized byte is a no-op; `<` underflows
/// the pointer, `.` reads a cell that is not there, and `]` scans off
/// the front of the program, each faulting with the machine unchanged.
pub proof fn lemma_single_instruction(c: u8)
    ensures
        c == OP_RIGHT ==> step(loaded(seq![c])) == StepResult::Next(
            State { sp: 1, pc: 1, ..loaded(seq![c]) },
        ),
        c == OP_LEFT ==> step(loaded(seq![c])) == StepResult::Faulted(
            loaded(seq![c]),
            Fault::PointerUnderflow,
        ),
        c == OP_PLUS ==> step(loaded(seq![c])) == StepResult::Next(
            State { stack: seq![1u8], pc: 1, ..loaded(seq![c]) },
        ),
        c == OP_MINUS ==> step(loaded(seq![c])) == StepResult::Next(
            State { stack: seq![1u8], pc: 1, ..loaded(seq![c]) },
        ),
        c == OP_DOT ==> step(loaded(seq![c])) == StepResult::Faulted(
            loaded(seq![c]),
            Fault::MissingCell,
        ),
        c == OP_OPEN ==> step(loaded(seq![c])) == StepResult::Next(
            State { pc: 1, ..loaded(seq![c]) },
        ),
        c == OP_CLOSE ==> step(loaded(seq![c])) == StepResult::Faulted(
            loaded(seq![c]),
            Fault::UnmatchedBracket,
        ),
        c != OP_RIGHT && c != OP_LEFT && c != OP_PLUS && c != OP_MINUS && c != OP_DOT && c
            != OP_OPEN && c != OP_CLOSE ==> step(loaded(seq![c])) == StepResult::Next(
            State { pc: 1, ..loaded(seq![c]) },
        ),
{
    let s = loaded(seq![c]);
    assert(s.program[0] == c);
    if c == OP_RIGHT {
        assert(step(s) =~= StepResult::Next(State { sp: 1, pc: 1, ..s }));
    } else if c == OP_PLUS {
        assert(step(s) =~= StepResult::Next(State { stack: seq![1u8], pc: 1, ..s }));
    } else if c == OP_MINUS {
        assert(step(s) =~= StepResult::Next(State { stack: seq![1u8], pc: 1, ..s }));
    } else if c == OP_OPEN {
        assert(step(s) =~= StepResult::Next(State { pc: 1, ..s }));
    } else if c == OP_LEFT || c == OP_DOT || c == OP_CLOSE {
    } else {
        assert(step(s) =~= StepResult::Next(State { pc: 1, ..s }));
    }
}

/// Law: cell values always lie in [0, 255]; incrementing 255 wraps to
/// 0; decrementing 0 on an existing cell wraps to 255; away from the
/// wrap points the operations move the value by exactly one.
pub proof fn lemma_cell_wrap(x: u8)
    ensures
        0 <= wrap_inc(x) <= 255,
        0 <= wrap_dec(x) <= 255,
        wrap_inc(255) == 0,
        wrap_dec(0) == 255,
        x < 255 ==> wrap_inc(x) == x + 1,
        x > 0 ==> wrap_dec(x) == x - 1,
{
}

} // verus!
