//! The execution engine itself: program store, tape, data pointer and
//! program counter, with the dispatch loop and the jump resolver.

use vstd::prelude::*;

use crate::semantics::{
    cell_at, dec_cell, inc_cell, loaded, run_n, scan_bkw, scan_fwd, step, Fault, State, StepResult,
    OP_CLOSE, OP_DOT, OP_LEFT, OP_MINUS, OP_OPEN, OP_PLUS, OP_RIGHT,
};

verus! {

/// Virtual machine: a program store, a growable tape of 8-bit cells, a
/// data pointer, a program counter, and the output produced so far.
pub struct VM {
    /// The program content.
    pub program: Vec<u8>,
    /// The tape of memory cells.
    pub stack: Vec<u8>,
    /// The data pointer.
    pub sp: usize,
    /// The program counter (current position).
    pub pc: usize,
    /// The bytes output so far, in instruction order.
    pub output: Vec<u8>,
}

impl View for VM {
    type V = State;

    open spec fn view(&self) -> State {
        State {
            program: self.program@,
            stack: self.stack@,
            sp: self.sp as nat,
            pc: self.pc as nat,
            output: self.output@,
        }
    }
}

/// How a bounded run ended: the program ran past its end, a fault was
/// detected, or the step budget ran out with the program still going.
#[derive(Clone, Copy, PartialEq, Eq, Structural, Debug)]
pub enum Outcome {
    Halted,
    Faulted(Fault),
    Running,
}

impl VM {
    /// Creates a VM instance: empty program, empty tape, pointer and
    /// counter at 0, no output.
    pub fn new() -> (vm: VM)
        ensures
            vm@ == loaded(Seq::<u8>::empty()),
    {
        let vm = VM {
            program: Vec::new(),
            stack: Vec::with_capacity(16),
            sp: 0,
            pc: 0,
            output: Vec::new(),
        };
        proof {
            assert(vm@ =~= loaded(Seq::<u8>::empty()));
        }
        vm
    }

    /// Appends the given bytes to the program store, byte for byte, with
    /// no transformation, filtering, or validation.
    pub fn load(&mut self, bytes: &[u8])
        ensures
            final(self)@ == (State { program: old(self)@.program + bytes@, ..old(self)@ }),
    {
        let mut i: usize = 0;
        while i < bytes.len()
            invariant
                i <= bytes.len(),
                self.program@ == old(self).program@ + bytes@.subrange(0, i as int),
                self.stack@ == old(self).stack@,
                self.sp == old(self).sp,
                self.pc == old(self).pc,
                self.output@ == old(self).output@,
            decreases bytes.len() - i,
        {
            self.program.push(bytes[i]);
            proof {
                assert(self.program@ =~= old(self).program@ + bytes@.subrange(0, i + 1));
            }
            i += 1;
        }
        proof {
            assert(bytes@.subrange(0, bytes@.len() as int) =~= bytes@);
            assert(self@ =~= (State { program: old(self)@.program + bytes@, ..old(self)@ }));
        }
    }

    /// Fetch the byte at the program counter, if the counter is still
    /// inside the program store.
    pub fn get_instruction(&self) -> (r: Option<u8>)
        ensures
            r == (if self@.pc < self@.program.len() {
                Some(self@.program[self@.pc as int])
            } else {
                None::<u8>
            }),
    {
        if self.pc < self.program.len() {
            Some(self.program[self.pc])
        } else {
            None
        }
    }

    /// Read the cell at the data pointer, if one exists there.
    pub fn get_val(&self) -> (r: Option<u8>)
        ensures
            r == cell_at(self@),
    {
        if self.sp < self.stack.len() {
            Some(self.stack[self.sp])
        } else {
            None
        }
    }

    /// Cell-increment: wraps modulo 256 on an existing cell; appends a
    /// cell valued 1 where none exists yet at the pointer.
    pub fn inc_val(&mut self)
        ensures
            final(self)@ == (State { stack: inc_cell(old(self)@.stack, old(self)@.sp), ..old(self)@ }),
    {
        if self.sp < self.stack.len() {
            let x = self.stack[self.sp];
            self.stack[self.sp] = if x == 255 { 0 } else { x + 1 };
        } else {
            self.stack.push(1);
        }
        proof {
            assert(self@ =~= (State {
                stack: inc_cell(old(self)@.stack, old(self)@.sp),
                ..old(self)@
            }));
        }
    }

    /// Cell-decrement: wraps modulo 256 on an existing cell; where none
    /// exists yet it appends a cell valued 1 (not 255), the deliberate
    /// asymmetry with the increment case.
    pub fn dec_val(&mut self)
        ensures
            final(self)@ == (State { stack: dec_cell(old(self)@.stack, old(self)@.sp), ..old(self)@ }),
    {
        if self.sp < self.stack.len() {
            let x = self.stack[self.sp];
            self.stack[self.sp] = if x == 0 { 255 } else { x - 1 };
        } else {
            self.stack.push(1);
        }
        proof {
            assert(self@ =~= (State {
                stack: dec_cell(old(self)@.stack, old(self)@.sp),
                ..old(self)@
            }));
        }
    }

    /// Pointer-increment; the machine-limit overflow, unreachable short
    /// of exhausting the address space, is reported as a fault.
    pub fn inc_sp(&mut self) -> (r: Result<(), Fault>)
        ensures
            match r {
                Ok(()) => old(self)@.sp < usize::MAX && final(self)@ == (State {
                    sp: old(self)@.sp + 1,
                    ..old(self)@
                }),
                Err(f) => f == Fault::PointerOverflow && old(self)@.sp == usize::MAX
                    && final(self)@ == old(self)@,
            },
    {
        if self.sp == usize::MAX {
            Err(Fault::PointerOverflow)
        } else {
            self.sp = self.sp + 1;
            proof {
                assert(self@ =~= (State { sp: old(self)@.sp + 1, ..old(self)@ }));
            }
            Ok(())
        }
    }

    /// Pointer-decrement; decrementing a pointer already at 0 is the
    /// pointer-underflow fault, detected before any mutation.
    pub fn dec_sp(&mut self) -> (r: Result<(), Fault>)
        ensures
            match r {
                Ok(()) => old(self)@.sp > 0 && final(self)@ == (State {
                    sp: (old(self)@.sp - 1) as nat,
                    ..old(self)@
                }),
                Err(f) => f == Fault::PointerUnderflow && old(self)@.sp == 0
                    && final(self)@ == old(self)@,
            },
    {
        if self.sp == 0 {
            Err(Fault::PointerUnderflow)
        } else {
            self.sp = self.sp - 1;
            proof {
                assert(self@ =~= (State { sp: (old(self)@.sp - 1) as nat, ..old(self)@ }));
            }
            Ok(())
        }
    }

    /// Output: appends the current cell's byte to the output record.
    /// An absent cell at the pointer cannot be output: that is a fault,
    /// detected before any mutation.
    pub fn print(&mut self) -> (r: Result<(), Fault>)
        ensures
            match r {
                Ok(()) => old(self)@.sp < old(self)@.stack.len() && final(self)@ == (State {
                    output: old(self)@.output.push(old(self)@.stack[old(self)@.sp as int]),
                    ..old(self)@
                }),
                Err(f) => f == Fault::MissingCell && old(self)@.sp >= old(self)@.stack.len()
                    && final(self)@ == old(self)@,
            },
    {
        if self.sp < self.stack.len() {
            let b = self.stack[self.sp];
            self.output.push(b);
            proof {
                assert(self@ =~= (State {
                    output: old(self)@.output.push(old(self)@.stack[old(self)@.sp as int]),
                    ..old(self)@
                }));
            }
            Ok(())
        } else {
            Err(Fault::MissingCell)
        }
    }

    /// Forward jump, executed with the program counter on a `[`.  A
    /// zero cell starts a forward scan for the matching `]`, counting
    /// nesting depth, and leaves the counter on that `]` (the dispatch
    /// loop's unconditional increment then advances past it); a nonzero
    /// or absent cell falls through.  A scan that runs off the end of
    /// the program is the unmatched-bracket fault, reported with the
    /// machine unchanged.
    pub fn jump_fwd(&mut self) -> (r: Result<(), Fault>)
        requires
            old(self)@.pc < old(self)@.program.len(),
            old(self)@.program[old(self)@.pc as int] == OP_OPEN,
        ensures
            final(self)@.program == old(self)@.program,
            final(self)@.stack == old(self)@.stack,
            final(self)@.sp == old(self)@.sp,
            final(self)@.output == old(self)@.output,
            match r {
                Ok(()) => {
                    if cell_at(old(self)@) == Some(0u8) {
                        &&& scan_fwd(old(self)@.program, old(self)@.pc, 0) == Some(final(self)@.pc)
                        &&& final(self)@.pc < final(self)@.program.len()
                    } else {
                        final(self)@.pc == old(self)@.pc
                    }
                },
                Err(f) => {
                    &&& f == Fault::UnmatchedBracket
                    &&& cell_at(old(self)@) == Some(0u8)
                    &&& scan_fwd(old(self)@.program, old(self)@.pc, 0) is None
                    &&& final(self)@ == old(self)@
                },
            },
    {
        let jump = match self.get_val() {
            Some(v) => v == 0,
            None => false,
        };
        if !jump {
            return Ok(());
        }
        let mut i: usize = self.pc;
        let mut counter: usize = 0;
        loop
            invariant
                self@ == old(self)@,
                old(self)@.pc < self@.program.len(),
                self@.program[old(self)@.pc as int] == OP_OPEN,
                old(self).pc <= i <= self.program.len(),
                counter <= i - old(self).pc,
                i == old(self).pc ==> counter == 0,
                i > old(self).pc ==> counter >= 1,
                cell_at(old(self)@) == Some(0u8),
                scan_fwd(self@.program, old(self)@.pc, 0) == scan_fwd(
                    self@.program,
                    i as nat,
                    counter as int,
                ),
            decreases self.program@.len() - i,
        {
            if i >= self.program.len() {
                return Err(Fault::UnmatchedBracket);
            }
            let c = self.program[i];
            if c == OP_CLOSE {
                if counter == 1 {
                    self.pc = i;
                    return Ok(());
                }
                counter = counter - 1;
            } else if c == OP_OPEN {
                counter = counter + 1;
            }
            i = i + 1;
        }
    }

    /// Backward jump, executed with the program counter on a `]`.  A
    /// nonzero or absent cell starts a backward scan for the matching
    /// `[`, counting nesting depth, and leaves the counter on that `[`
    /// (the dispatch loop's increment then moves to the first byte of
    /// the loop body); a zero cell falls through.  A scan that runs off
    /// the front of the program is the unmatched-bracket fault, reported
    /// with the machine unchanged.
    pub fn jump_bkw(&mut self) -> (r: Result<(), Fault>)
        requires
            old(self)@.pc < old(self)@.program.len(),
            old(self)@.program[old(self)@.pc as int] == OP_CLOSE,
        ensures
            final(self)@.program == old(self)@.program,
            final(self)@.stack == old(self)@.stack,
            final(self)@.sp == old(self)@.sp,
            final(self)@.output == old(self)@.output,
            match r {
                Ok(()) => {
                    if cell_at(old(self)@) == Some(0u8) {
                        final(self)@.pc == old(self)@.pc
                    } else {
                        &&& scan_bkw(old(self)@.program, old(self)@.pc, 0) == Some(final(self)@.pc)
                        &&& final(self)@.pc < final(self)@.program.len()
                    }
                },
                Err(f) => {
                    &&& f == Fault::UnmatchedBracket
                    &&& cell_at(old(self)@) != Some(0u8)
                    &&& scan_bkw(old(self)@.program, old(self)@.pc, 0) is None
                    &&& final(self)@ == old(self)@
                },
            },
    {
        let jump = match self.get_val() {
            Some(v) => v != 0,
            None => true,
        };
        if !jump {
            return Ok(());
        }
        let mut i: usize = self.pc;
        let mut counter: usize = 0;
        loop
            invariant
                self@ == old(self)@,
                old(self)@.pc < self@.program.len(),
                self@.program[old(self)@.pc as int] == OP_CLOSE,
                i <= old(self).pc,
                counter <= old(self).pc - i,
                i == old(self).pc ==> counter == 0,
                i < old(self).pc ==> counter >= 1,
                cell_at(old(self)@) != Some(0u8),
                scan_bkw(self@.program, old(self)@.pc, 0) == scan_bkw(
                    self@.program,
                    i as nat,
                    counter as int,
                ),
            decreases i,
        {
            let c = self.program[i];
            if c == OP_OPEN && counter == 1 {
                self.pc = i;
                return Ok(());
            }
            if i == 0 {
                return Err(Fault::UnmatchedBracket);
            }
            if c == OP_OPEN {
                counter = counter - 1;
            } else if c == OP_CLOSE {
                counter = counter + 1;
            }
            i = i - 1;
        }
    }

    /// Run the loaded program for up to `fuel` dispatch steps.  The
    /// machine after the call is exactly the one the step semantics
    /// reaches from the machine before it: `Halted` and `Faulted` say
    /// the program stopped within the budget, `Running` that the budget
    /// ran out with the program still going (call again to continue; a
    /// program with no reachable halting condition runs forever).
    pub fn run(&mut self, fuel: usize) -> (r: Outcome)
        ensures
            match r {
                Outcome::Halted => exists|n: nat|
                    n <= fuel && run_n(old(self)@, n) == StepResult::Halted(final(self)@),
                Outcome::Faulted(f) => exists|n: nat|
                    n <= fuel && run_n(old(self)@, n) == StepResult::Faulted(final(self)@, f),
                Outcome::Running => run_n(old(self)@, fuel as nat) == StepResult::Next(
                    final(self)@,
                ),
            },
    {
        let ghost s0 = self@;
        let mut k: usize = 0;
        while k < fuel
            invariant
                k <= fuel,
                s0 == old(self)@,
                run_n(s0, k as nat) == StepResult::Next(self@),
            decreases fuel - k,
        {
            let ghost pre = self@;
            let fetched = self.get_instruction();
            match fetched {
                None => {
                    proof {
                        assert(step(pre) == StepResult::Halted(self@));
                        assert(run_n(s0, (k + 1) as nat) == StepResult::Halted(self@));
                    }
                    return Outcome::Halted;
                },
                Some(c) => {
                    if c == OP_RIGHT {
                        if let Err(f) = self.inc_sp() {
                            proof {
                                assert(run_n(s0, (k + 1) as nat) == StepResult::Faulted(self@, f));
                            }
                            return Outcome::Faulted(f);
                        }
                    } else if c == OP_LEFT {
                        if let Err(f) = self.dec_sp() {
                            proof {
                                assert(run_n(s0, (k + 1) as nat) == StepResult::Faulted(self@, f));
                            }
                            return Outcome::Faulted(f);
                        }
                    } else if c == OP_PLUS {
                        self.inc_val();
                    } else if c == OP_MINUS {
                        self.dec_val();
                    } else if c == OP_DOT {
                        if let Err(f) = self.print() {
                            proof {
                                assert(run_n(s0, (k + 1) as nat) == StepResult::Faulted(self@, f));
                            }
                            return Outcome::Faulted(f);
                        }
                    } else if c == OP_OPEN {
                        if let Err(f) = self.jump_fwd() {
                            proof {
                                assert(run_n(s0, (k + 1) as nat) == StepResult::Faulted(self@, f));
                            }
                            return Outcome::Faulted(f);
                        }
                    } else if c == OP_CLOSE {
                        if let Err(f) = self.jump_bkw() {
                            proof {
                                assert(run_n(s0, (k + 1) as nat) == StepResult::Faulted(self@, f));
                            }
                            return Outcome::Faulted(f);
                        }
                    }
                    let end = self.program.len();
                    assert(self.pc < end);
                    self.pc = self.pc + 1;
                    k = k + 1;
                    proof {
                        assert(step(pre) =~= StepResult::Next(self@));
                        assert(run_n(s0, k as nat) == StepResult::Next(self@));
                    }
                },
            }
        }
        Outcome::Running
    }
}

} // verus!
