use tapevm::semantics::Fault;
use tapevm::vm::{Outcome, VM};

const FUEL: usize = 10_000;

#[test]
fn fresh_engine_is_empty() {
    let vm = VM::new();
    assert_eq!(vm.program, Vec::<u8>::new());
    assert_eq!(vm.stack, Vec::<u8>::new());
    assert_eq!(vm.sp, 0);
    assert_eq!(vm.pc, 0);
    assert_eq!(vm.output, Vec::<u8>::new());
}

#[test]
fn load_reads_back_identically() {
    let mut vm = VM::new();
    let bytes = [b'+', b'[', 0u8, 255u8, b'x', b']', b'.'];
    vm.load(&bytes);
    assert_eq!(vm.program, bytes.to_vec());
}

#[test]
fn load_appends_to_the_program_store() {
    let mut vm = VM::new();
    vm.load(b"+[");
    vm.load(b"-]");
    assert_eq!(vm.program, b"+[-]".to_vec());
}

#[test]
fn right_moves_pointer_only() {
    let mut vm = VM::new();
    vm.load(b">");
    assert_eq!(vm.run(FUEL), Outcome::Halted);
    assert_eq!(vm.sp, 1);
    assert_eq!(vm.pc, 1);
    assert_eq!(vm.stack, Vec::<u8>::new());
    assert_eq!(vm.output, Vec::<u8>::new());
}

#[test]
fn left_on_fresh_engine_underflows() {
    let mut vm = VM::new();
    vm.load(b"<");
    assert_eq!(vm.run(FUEL), Outcome::Faulted(Fault::PointerUnderflow));
    assert_eq!(vm.sp, 0);
    assert_eq!(vm.pc, 0);
}

#[test]
fn plus_on_absent_cell_appends_one() {
    let mut vm = VM::new();
    vm.load(b"+");
    assert_eq!(vm.run(FUEL), Outcome::Halted);
    assert_eq!(vm.stack, vec![1u8]);
    assert_eq!(vm.pc, 1);
}

#[test]
fn minus_on_absent_cell_appends_one_not_255() {
    let mut vm = VM::new();
    vm.load(b"-");
    assert_eq!(vm.run(FUEL), Outcome::Halted);
    assert_eq!(vm.stack, vec![1u8]);
    assert_eq!(vm.sp, 0);
}

#[test]
fn dot_on_absent_cell_faults() {
    let mut vm = VM::new();
    vm.load(b".");
    assert_eq!(vm.run(FUEL), Outcome::Faulted(Fault::MissingCell));
    assert_eq!(vm.output, Vec::<u8>::new());
    assert_eq!(vm.pc, 0);
}

#[test]
fn open_bracket_with_absent_cell_falls_through() {
    let mut vm = VM::new();
    vm.load(b"[");
    assert_eq!(vm.run(FUEL), Outcome::Halted);
    assert_eq!(vm.pc, 1);
}

#[test]
fn close_bracket_on_fresh_engine_faults() {
    let mut vm = VM::new();
    vm.load(b"]");
    assert_eq!(vm.run(FUEL), Outcome::Faulted(Fault::UnmatchedBracket));
    assert_eq!(vm.pc, 0);
}

#[test]
fn unrecognized_byte_is_a_noop() {
    let mut vm = VM::new();
    vm.load(b"x");
    assert_eq!(vm.run(FUEL), Outcome::Halted);
    assert_eq!(vm.stack, Vec::<u8>::new());
    assert_eq!(vm.sp, 0);
    assert_eq!(vm.pc, 1);
    assert_eq!(vm.output, Vec::<u8>::new());
}

#[test]
fn incrementing_255_wraps_to_0() {
    let mut vm = VM::new();
    vm.stack.push(255);
    vm.load(b"+");
    assert_eq!(vm.run(FUEL), Outcome::Halted);
    assert_eq!(vm.stack, vec![0u8]);
}

#[test]
fn decrementing_0_on_existing_cell_wraps_to_255() {
    let mut vm = VM::new();
    vm.stack.push(0);
    vm.load(b"-");
    assert_eq!(vm.run(FUEL), Outcome::Halted);
    assert_eq!(vm.stack, vec![255u8]);
}

#[test]
fn three_plus_dot_outputs_code_3() {
    let mut vm = VM::new();
    vm.load(b"+++.");
    assert_eq!(vm.run(FUEL), Outcome::Halted);
    assert_eq!(vm.output, vec![3u8]);
}

#[test]
fn loop_drains_cell_to_zero() {
    let mut vm = VM::new();
    vm.load(b"+[-]");
    assert_eq!(vm.run(FUEL), Outcome::Halted);
    assert_eq!(vm.stack, vec![0u8]);
    assert_eq!(vm.sp, 0);
    assert_eq!(vm.output, Vec::<u8>::new());
}

#[test]
fn backward_jump_reenters_loop_body() {
    let mut vm = VM::new();
    vm.load(b"++[-]");
    assert_eq!(vm.run(FUEL), Outcome::Halted);
    assert_eq!(vm.stack, vec![0u8]);
    assert_eq!(vm.sp, 0);
}

#[test]
fn pointer_moves_and_cells_are_independent() {
    let mut vm = VM::new();
    vm.load(b"++>+++.<.");
    assert_eq!(vm.run(FUEL), Outcome::Halted);
    assert_eq!(vm.output, vec![3u8, 2u8]);
    assert_eq!(vm.stack, vec![2u8, 3u8]);
    assert_eq!(vm.sp, 0);
}

#[test]
fn empty_program_halts_immediately() {
    let mut vm = VM::new();
    assert_eq!(vm.run(FUEL), Outcome::Halted);
    assert_eq!(vm.pc, 0);
    assert_eq!(vm.stack, Vec::<u8>::new());
    assert_eq!(vm.output, Vec::<u8>::new());
}

#[test]
fn unmatched_open_bracket_on_zero_cell_faults() {
    let mut vm = VM::new();
    vm.stack.push(0);
    vm.load(b"[");
    assert_eq!(vm.run(FUEL), Outcome::Faulted(Fault::UnmatchedBracket));
    assert_eq!(vm.pc, 0);
}

#[test]
fn unmatched_open_bracket_after_make_and_drain_faults() {
    let mut vm = VM::new();
    vm.load(b"+-[");
    assert_eq!(vm.run(FUEL), Outcome::Faulted(Fault::UnmatchedBracket));
    assert_eq!(vm.stack, vec![0u8]);
    assert_eq!(vm.pc, 2);
}

#[test]
fn forward_jump_skips_loop_body() {
    let mut vm = VM::new();
    vm.load(b"+-[.]");
    assert_eq!(vm.run(FUEL), Outcome::Halted);
    assert_eq!(vm.output, Vec::<u8>::new());
    assert_eq!(vm.pc, 5);
}

#[test]
fn forward_jump_skips_nested_brackets() {
    let mut vm = VM::new();
    vm.stack.push(0);
    vm.load(b"[[]]");
    assert_eq!(vm.run(FUEL), Outcome::Halted);
    assert_eq!(vm.pc, 4);
}

#[test]
fn increment_beyond_the_end_appends_at_the_end() {
    // The tape grows only by appending: an increment with the pointer
    // two past the end still appends at the current length, and the
    // pointer goes on addressing a cell that is not there.
    let mut vm = VM::new();
    vm.load(b">>+");
    assert_eq!(vm.run(FUEL), Outcome::Halted);
    assert_eq!(vm.sp, 2);
    assert_eq!(vm.stack, vec![1u8]);
}

#[test]
fn pointer_at_machine_limit_overflows() {
    let mut vm = VM::new();
    vm.load(b">");
    vm.sp = usize::MAX;
    assert_eq!(vm.run(FUEL), Outcome::Faulted(Fault::PointerOverflow));
    assert_eq!(vm.sp, usize::MAX);
}

#[test]
fn nested_loops_drain_both_cells() {
    let mut vm = VM::new();
    vm.load(b"++[>+++[-]<-]");
    assert_eq!(vm.run(FUEL), Outcome::Halted);
    assert_eq!(vm.stack, vec![0u8, 0u8]);
    assert_eq!(vm.sp, 0);
}

#[test]
fn exhausted_fuel_reports_running() {
    let mut vm = VM::new();
    vm.load(b"+[]");
    assert_eq!(vm.run(10), Outcome::Running);
    assert_eq!(vm.run(10), Outcome::Running);
}

#[test]
fn zero_fuel_reports_running() {
    let mut vm = VM::new();
    assert_eq!(vm.run(0), Outcome::Running);
    assert_eq!(vm.run(1), Outcome::Halted);
}

#[test]
fn get_instruction_follows_the_counter() {
    let mut vm = VM::new();
    assert_eq!(vm.get_instruction(), None);
    vm.load(b"+-");
    assert_eq!(vm.get_instruction(), Some(b'+'));
    vm.pc = 1;
    assert_eq!(vm.get_instruction(), Some(b'-'));
    vm.pc = 2;
    assert_eq!(vm.get_instruction(), None);
}

#[test]
fn get_val_follows_the_pointer() {
    let mut vm = VM::new();
    assert_eq!(vm.get_val(), None);
    vm.stack.push(7);
    assert_eq!(vm.get_val(), Some(7));
    vm.sp = 1;
    assert_eq!(vm.get_val(), None);
}

#[test]
fn inc_val_then_dec_val_roundtrip() {
    let mut vm = VM::new();
    vm.inc_val();
    assert_eq!(vm.stack, vec![1u8]);
    vm.inc_val();
    assert_eq!(vm.stack, vec![2u8]);
    vm.dec_val();
    assert_eq!(vm.stack, vec![1u8]);
}

#[test]
fn dec_sp_at_zero_reports_underflow() {
    let mut vm = VM::new();
    assert_eq!(vm.dec_sp(), Err(Fault::PointerUnderflow));
    assert_eq!(vm.inc_sp(), Ok(()));
    assert_eq!(vm.sp, 1);
    assert_eq!(vm.dec_sp(), Ok(()));
    assert_eq!(vm.sp, 0);
}

#[test]
fn print_records_the_current_cell() {
    let mut vm = VM::new();
    assert_eq!(vm.print(), Err(Fault::MissingCell));
    vm.stack.push(65);
    assert_eq!(vm.print(), Ok(()));
    assert_eq!(vm.output, vec![65u8]);
}

#[test]
fn jump_fwd_lands_on_matching_close() {
    let mut vm = VM::new();
    vm.load(b"[+]");
    vm.stack.push(0);
    assert_eq!(vm.jump_fwd(), Ok(()));
    assert_eq!(vm.pc, 2);
}

#[test]
fn jump_bkw_lands_on_matching_open() {
    let mut vm = VM::new();
    vm.load(b"[+]");
    vm.stack.push(1);
    vm.pc = 2;
    assert_eq!(vm.jump_bkw(), Ok(()));
    assert_eq!(vm.pc, 0);
}
