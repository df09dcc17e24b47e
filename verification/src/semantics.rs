//! Mathematical model of the engine: the machine state, the faults, the
//! effect of a single dispatch step, and the bidirectional bracket scans.

use vstd::prelude::*;

verus! {

/// An execution-time condition that is fatal to the guest program.
/// The engine reports it as a value instead of crashing; it is
/// detected before any mutation for the step that triggers it.
#[derive(Clone, Copy, PartialEq, Eq, Structural, Debug)]
pub enum Fault {
    /// Pointer-decrement while the data pointer is already 0.
    PointerUnderflow,
    /// Pointer-increment while the data pointer is at the machine's limit.
    PointerOverflow,
    /// A bracket scan ran off the bounds of the program store.
    UnmatchedBracket,
    /// Output requested at a tape index where no cell exists yet.
    MissingCell,
}

/// The whole machine state: program store, tape, data pointer, program
/// counter, and the output accumulated so far.
#[verifier::ext_equal]
pub struct State {
    pub program: Seq<u8>,
    pub stack: Seq<u8>,
    pub sp: nat,
    pub pc: nat,
    pub output: Seq<u8>,
}

/// What one dispatch step does: continue in a new state, halt, or fault.
/// `Halted` and `Faulted` carry the state at the moment of stopping.
#[verifier::ext_equal]
pub enum StepResult {
    Next(State),
    Halted(State),
    Faulted(State, Fault),
}

/// Instruction byte `>`: pointer-increment.
pub const OP_RIGHT: u8 = 62;

/// Instruction byte `<`: pointer-decrement.
pub const OP_LEFT: u8 = 60;

/// Instruction byte `+`: cell-increment.
pub const OP_PLUS: u8 = 43;

/// Instruction byte `-`: cell-decrement.
pub const OP_MINUS: u8 = 45;

/// Instruction byte `.`: output the current cell.
pub const OP_DOT: u8 = 46;

/// Instruction byte `[`: forward jump.
pub const OP_OPEN: u8 = 91;

/// Instruction byte `]`: backward jump.
pub const OP_CLOSE: u8 = 93;

/// Increment with wraparound modulo 256.
pub open spec fn wrap_inc(x: u8) -> u8 {
    if x == 255 { 0 } else { (x + 1) as u8 }
}

/// Decrement with wraparound modulo 256.
pub open spec fn wrap_dec(x: u8) -> u8 {
    if x == 0 { 255 } else { (x - 1) as u8 }
}

/// The cell at the data pointer, if one exists there.
pub open spec fn cell_at(s: State) -> Option<u8> {
    if s.sp < s.stack.len() {
        Some(s.stack[s.sp as int])
    } else {
        None
    }
}

/// Cell-increment on the tape: wraps an existing cell modulo 256; where
/// no cell exists yet at the pointer, a new cell valued 1 is appended.
pub open spec fn inc_cell(stack: Seq<u8>, sp: nat) -> Seq<u8> {
    if sp < stack.len() {
        stack.update(sp as int, wrap_inc(stack[sp as int]))
    } else {
        stack.push(1)
    }
}

/// Cell-decrement on the tape: wraps an existing cell modulo 256; where
/// no cell exists yet, a new cell valued 1 (not 255) is appended — a
/// deliberate asymmetry with the increment case, and test-covered so
/// that any future correction is a visible change.
pub open spec fn dec_cell(stack: Seq<u8>, sp: nat) -> Seq<u8> {
    if sp < stack.len() {
        stack.update(sp as int, wrap_dec(stack[sp as int]))
    } else {
        stack.push(1)
    }
}

/// Forward scan for the matching `]`, counting nesting depth: `[` raises
/// the counter, `]` lowers it, and the scan stops at the `]` that brings
/// it to zero.  `None` means the scan ran off the end of the program.
pub open spec fn scan_fwd(program: Seq<u8>, pc: nat, counter: int) -> Option<nat>
    decreases program.len() - pc,
{
    if pc >= program.len() {
        None
    } else if program[pc as int] == OP_CLOSE {
        if counter == 1 {
            Some(pc)
        } else {
            scan_fwd(program, pc + 1, counter - 1)
        }
    } else if program[pc as int] == OP_OPEN {
        scan_fwd(program, pc + 1, counter + 1)
    } else {
        scan_fwd(program, pc + 1, counter)
    }
}

/// Backward scan for the matching `[`: `]` raises the counter, `[`
/// lowers it, stopping at the `[` that brings it to zero.  `None` means
/// the scan ran off the front of the program.
pub open spec fn scan_bkw(program: Seq<u8>, pc: nat, counter: int) -> Option<nat>
    decreases pc,
{
    if pc < program.len() && program[pc as int] == OP_OPEN && counter == 1 {
        Some(pc)
    } else if pc == 0 {
        None
    } else {
        let lowered = pc < program.len() && program[pc as int] == OP_OPEN;
        let raised = pc < program.len() && program[pc as int] == OP_CLOSE;
        scan_bkw(
            program,
            (pc - 1) as nat,
            if lowered { counter - 1 } else if raised { counter + 1 } else { counter },
        )
    }
}

/// One dispatch step: fetch the byte at the program counter, apply its
/// effect, and advance the counter by one (unconditionally, also after a
/// jump); a counter past the end of the program halts the machine.
/// Unrecognized bytes are no-ops.
pub open spec fn step(s: State) -> StepResult {
    if s.pc >= s.program.len() {
        StepResult::Halted(s)
    } else {
        let c = s.program[s.pc as int];
        if c == OP_RIGHT {
            if s.sp == usize::MAX as nat {
                StepResult::Faulted(s, Fault::PointerOverflow)
            } else {
                StepResult::Next(State { sp: s.sp + 1, pc: s.pc + 1, ..s })
            }
        } else if c == OP_LEFT {
            if s.sp == 0 {
                StepResult::Faulted(s, Fault::PointerUnderflow)
            } else {
                StepResult::Next(State { sp: (s.sp - 1) as nat, pc: s.pc + 1, ..s })
            }
        } else if c == OP_PLUS {
            StepResult::Next(State { stack: inc_cell(s.stack, s.sp), pc: s.pc + 1, ..s })
        } else if c == OP_MINUS {
            StepResult::Next(State { stack: dec_cell(s.stack, s.sp), pc: s.pc + 1, ..s })
        } else if c == OP_DOT {
            if s.sp < s.stack.len() {
                StepResult::Next(
                    State { output: s.output.push(s.stack[s.sp as int]), pc: s.pc + 1, ..s },
                )
            } else {
                StepResult::Faulted(s, Fault::MissingCell)
            }
        } else if c == OP_OPEN {
            if cell_at(s) == Some(0u8) {
                match scan_fwd(s.program, s.pc, 0) {
                    Some(j) => StepResult::Next(State { pc: j + 1, ..s }),
                    None => StepResult::Faulted(s, Fault::UnmatchedBracket),
                }
            } else {
                StepResult::Next(State { pc: s.pc + 1, ..s })
            }
        } else if c == OP_CLOSE {
            if cell_at(s) == Some(0u8) {
                StepResult::Next(State { pc: s.pc + 1, ..s })
            } else {
                match scan_bkw(s.program, s.pc, 0) {
                    Some(j) => StepResult::Next(State { pc: j + 1, ..s }),
                    None => StepResult::Faulted(s, Fault::UnmatchedBracket),
                }
            }
        } else {
            StepResult::Next(State { pc: s.pc + 1, ..s })
        }
    }
}

/// The machine after `n` dispatch steps from `s`: `Next` while still
/// running; `Halted` and `Faulted` are absorbing.
pub open spec fn run_n(s: State, n: nat) -> StepResult
    decreases n,
{
    if n == 0 {
        StepResult::Next(s)
    } else {
        match run_n(s, (n - 1) as nat) {
            StepResult::Next(t) => step(t),
            r => r,
        }
    }
}

/// The state of a freshly constructed engine that has loaded `program`:
/// empty tape, pointer and counter at 0, no output yet.
pub open spec fn loaded(program: Seq<u8>) -> State {
    State { program, stack: Seq::empty(), sp: 0, pc: 0, output: Seq::empty() }
}

} // verus!
