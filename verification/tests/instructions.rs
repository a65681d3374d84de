use sol::instructions::Instruction;
use std::mem::size_of;

#[test]
fn test_instruction_is_32_bits() {
    assert_eq!(size_of::<Instruction>(), 4);
}

#[test]
fn no_jump_is_a_pending_break() {
    assert!(Instruction::PendingBreak.pending_break());
    assert!(!Instruction::Jump { offset: 0xDEAD }.pending_break());
    assert!(!Instruction::Jump { offset: 7 }.pending_break());
    assert!(!Instruction::JumpReverse { offset: 0xDEAD }.pending_break());
    assert!(!Instruction::FunctionReturn.pending_break());
}
