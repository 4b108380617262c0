use hlvm::vm::HaltReason;
use hlvm::vm::StepResult;
use hlvm::vm::VM;
use hlvm::vm::VmFault;

#[test]
fn test_create_vm() {
    let test_vm = VM::new();
    assert_eq!(test_vm.registers[0], 0)
}

#[test]
fn test_opcode_hlt() {
    let mut test_vm = VM::new();
    let test_bytes = vec![5, 0, 0, 0];
    test_vm.program = test_bytes;
    test_vm.run_once();
    assert_eq!(test_vm.pc, 1);
}

#[test]
fn test_opcode_igl() {
    let mut test_vm = VM::new();
    let test_bytes = vec![254, 0, 0, 0];
    test_vm.program = test_bytes;
    test_vm.run_once();
    assert_eq!(test_vm.pc, 1);
}

#[test]
fn test_opcode_load() {
    let mut test_vm = VM::get_test_vm();
    test_vm.program = vec![0, 0, 1, 244];
    test_vm.run();
    assert_eq!(test_vm.registers[0], 500);
}

#[test]
fn test_opcode_add() {
    let mut test_vm = VM::get_test_vm();
    test_vm.program = vec![1, 0, 1, 2];
    test_vm.run_once();
    assert_eq!(test_vm.registers[2], 25);
}

#[test]
fn test_opcode_sub() {
    let mut test_vm = VM::get_test_vm();
    test_vm.program = vec![2, 0, 1, 2];
    test_vm.run_once();
    assert_eq!(test_vm.registers[2], 5);
}

#[test]
fn test_opcode_mul() {
    let mut test_vm = VM::get_test_vm();
    test_vm.program = vec![3, 0, 1, 2];
    test_vm.run_once();
    assert_eq!(test_vm.registers[2], 150);
}

#[test]
fn test_opcode_div() {
    let mut test_vm = VM::get_test_vm();
    test_vm.program = vec![4, 0, 1, 2];
    test_vm.run_once();
    assert_eq!(test_vm.registers[2], 1);
    assert_eq!(test_vm.remainder, 5)
}

#[test]
fn test_opcode_jmp() {
    let mut test_vm = VM::get_test_vm();
    test_vm.registers[0] = 1;
    test_vm.program = vec![6, 0, 0, 0];
    test_vm.run_once();
    assert_eq!(test_vm.pc, 1);
}

#[test]
fn test_opcode_jmpf() {
    let mut test_vm = VM::get_test_vm();
    test_vm.registers[0] = 2;
    test_vm.program = vec![7, 0, 0, 0, 6, 0, 0, 0];
    test_vm.run_once();
    assert_eq!(test_vm.pc, 4);
}

#[test]
fn test_opcode_jmpb() {
    let mut test_vm = VM::get_test_vm();
    test_vm.registers[0] = 2;
    test_vm.program = vec![8, 0, 0, 0, 6, 0, 0, 0];
    test_vm.run_once();
    assert_eq!(test_vm.pc, 0);
}

#[test]
fn test_opcode_eq() {
    let mut test_vm = VM::get_test_vm();
    test_vm.registers[0] = 10;
    test_vm.registers[1] = 10;
    test_vm.program = vec![9, 0, 1, 0, 9, 0, 1, 0];
    test_vm.run_once();
    assert_eq!(test_vm.equal_flag, true);
    test_vm.registers[1] = 20;
    test_vm.run_once();
    assert_eq!(test_vm.equal_flag, false);
}

#[test]
fn test_opcode_neq() {
    let mut test_vm = VM::get_test_vm();
    test_vm.registers[0] = 10;
    test_vm.registers[1] = 10;
    test_vm.program = vec![10, 0, 1, 0, 10, 0, 1, 0];
    test_vm.run_once();
    assert_eq!(test_vm.equal_flag, false);
    test_vm.registers[1] = 20;
    test_vm.run_once();
    assert_eq!(test_vm.equal_flag, true);
}

#[test]
fn test_opcode_gte() {
    let mut test_vm = VM::get_test_vm();
    test_vm.registers[0] = 10;
    test_vm.registers[1] = 10;
    test_vm.program = vec![11, 0, 1, 0, 11, 0, 1, 0, 11, 0, 1, 0];
    test_vm.run_once();
    assert_eq!(test_vm.equal_flag, true);
    test_vm.registers[1] = 20;
    test_vm.run_once();
    assert_eq!(test_vm.equal_flag, false);
    test_vm.registers[1] = 5;
    test_vm.run_once();
    assert_eq!(test_vm.equal_flag, true);
}

#[test]
fn test_opcode_lte() {
    let mut test_vm = VM::get_test_vm();
    test_vm.registers[0] = 10;
    test_vm.registers[1] = 10;
    test_vm.program = vec![12, 0, 1, 0, 12, 0, 1, 0, 12, 0, 1, 0];
    test_vm.run_once();
    assert_eq!(test_vm.equal_flag, true);
    test_vm.registers[1] = 20;
    test_vm.run_once();
    assert_eq!(test_vm.equal_flag, true);
    test_vm.registers[1] = 5;
    test_vm.run_once();
    assert_eq!(test_vm.equal_flag, false);
}

#[test]
fn test_opcode_lt() {
    let mut test_vm = VM::get_test_vm();
    test_vm.registers[0] = 10;
    test_vm.registers[1] = 10;
    test_vm.program = vec![13, 0, 1, 0, 13, 0, 1, 0];
    test_vm.run_once();
    assert_eq!(test_vm.equal_flag, false);
    test_vm.registers[1] = 20;
    test_vm.run_once();
    assert_eq!(test_vm.equal_flag, true);
}

#[test]
fn test_opcode_gt() {
    let mut test_vm = VM::get_test_vm();
    test_vm.registers[0] = 10;
    test_vm.registers[1] = 10;
    test_vm.program = vec![14, 0, 1, 0, 14, 0, 1, 0];
    test_vm.run_once();
    assert_eq!(test_vm.equal_flag, false);
    test_vm.registers[1] = 5;
    test_vm.run_once();
    assert_eq!(test_vm.equal_flag, true);
}

#[test]
fn test_opcode_jeq() {
    let mut test_vm = VM::get_test_vm();
    test_vm.registers[0] = 7;
    test_vm.equal_flag = true;
    test_vm.program = vec![15, 0, 0, 0, 17, 0, 0, 0, 17, 0, 0, 0];
    test_vm.run_once();
    assert_eq!(test_vm.pc, 7);
}

#[test]
fn test_jeq_not_taken_advances_past_operand() {
    let mut test_vm = VM::get_test_vm();
    test_vm.registers[0] = 7;
    test_vm.equal_flag = false;
    test_vm.program = vec![15, 0, 0, 0, 17, 0, 0, 0];
    let r = test_vm.run_once();
    assert_eq!(r, StepResult::Continue);
    assert_eq!(test_vm.pc, 2);
}

#[test]
fn test_load_sets_pc_to_instruction_length() {
    let mut test_vm = VM::new();
    test_vm.program = vec![0, 3, 3, 232];
    let r = test_vm.run_once();
    assert_eq!(r, StepResult::Continue);
    assert_eq!(test_vm.registers[3], 1000);
    assert_eq!(test_vm.pc, 4);
}

#[test]
fn test_halt_leaves_registers_untouched() {
    let mut test_vm = VM::get_test_vm();
    test_vm.program = vec![5, 0, 0, 0];
    let r = test_vm.run_once();
    assert_eq!(r, StepResult::Halted(HaltReason::HaltInstruction));
    assert_eq!(test_vm.registers[0], 15);
    assert_eq!(test_vm.registers[1], 10);
}

#[test]
fn test_illegal_leaves_registers_untouched() {
    let mut test_vm = VM::get_test_vm();
    test_vm.program = vec![200, 0, 0, 0];
    let r = test_vm.run_once();
    assert_eq!(r, StepResult::Halted(HaltReason::IllegalOpcode));
    assert_eq!(test_vm.registers[0], 15);
    assert_eq!(test_vm.registers[1], 10);
}

#[test]
fn test_empty_program_halts_at_end() {
    let mut test_vm = VM::new();
    let r = test_vm.run_once();
    assert_eq!(r, StepResult::Halted(HaltReason::EndOfProgram));
    assert_eq!(test_vm.pc, 0);
}

#[test]
fn test_run_stops_at_halt_instruction() {
    let mut test_vm = VM::get_test_vm();
    test_vm.program = vec![1, 0, 1, 2, 5, 0, 0, 0, 1, 0, 1, 3];
    let r = test_vm.run();
    assert_eq!(r, StepResult::Halted(HaltReason::HaltInstruction));
    assert_eq!(test_vm.registers[2], 25);
    assert_eq!(test_vm.registers[3], 0);
    assert_eq!(test_vm.pc, 5);
}

#[test]
fn test_divide_by_zero_faults_without_mutation() {
    let mut test_vm = VM::get_test_vm();
    test_vm.registers[1] = 0;
    test_vm.registers[2] = 42;
    test_vm.remainder = 7;
    test_vm.program = vec![4, 0, 1, 2];
    let r = test_vm.run_once();
    assert_eq!(r, StepResult::Faulted(VmFault::DivideByZero));
    assert_eq!(test_vm.registers[2], 42);
    assert_eq!(test_vm.remainder, 7);
}

#[test]
fn test_negative_remainder_is_reinterpreted_unsigned() {
    let mut test_vm = VM::new();
    test_vm.registers[0] = -5;
    test_vm.registers[1] = 2;
    test_vm.program = vec![4, 0, 1, 2];
    let r = test_vm.run_once();
    assert_eq!(r, StepResult::Continue);
    assert_eq!(test_vm.registers[2], -2);
    assert_eq!(test_vm.remainder, u32::MAX);
}

#[test]
fn test_division_of_min_by_minus_one_wraps() {
    let mut test_vm = VM::new();
    test_vm.registers[0] = i32::MIN;
    test_vm.registers[1] = -1;
    test_vm.program = vec![4, 0, 1, 2];
    let r = test_vm.run_once();
    assert_eq!(r, StepResult::Continue);
    assert_eq!(test_vm.registers[2], i32::MIN);
    assert_eq!(test_vm.remainder, 0);
}

#[test]
fn test_add_wraps_on_overflow() {
    let mut test_vm = VM::new();
    test_vm.registers[0] = i32::MAX;
    test_vm.registers[1] = 1;
    test_vm.program = vec![1, 0, 1, 2];
    test_vm.run_once();
    assert_eq!(test_vm.registers[2], i32::MIN);
}

#[test]
fn test_register_index_out_of_range_faults() {
    let mut test_vm = VM::get_test_vm();
    test_vm.program = vec![1, 40, 1, 2];
    let r = test_vm.run_once();
    assert_eq!(r, StepResult::Faulted(VmFault::RegisterOutOfRange));
    assert_eq!(test_vm.registers[2], 0);
}

#[test]
fn test_jump_target_out_of_range_faults() {
    let mut test_vm = VM::get_test_vm();
    test_vm.registers[0] = 100;
    test_vm.program = vec![6, 0, 0, 0];
    let r = test_vm.run_once();
    assert_eq!(r, StepResult::Faulted(VmFault::PcOutOfRange));
    assert_eq!(test_vm.pc, 2);
}

#[test]
fn test_backward_jump_underflow_faults() {
    let mut test_vm = VM::get_test_vm();
    test_vm.registers[0] = 10;
    test_vm.program = vec![8, 0, 0, 0];
    let r = test_vm.run_once();
    assert_eq!(r, StepResult::Faulted(VmFault::JumpUnderflow));
    assert_eq!(test_vm.pc, 2);
}

#[test]
fn test_truncated_instruction_faults() {
    let mut test_vm = VM::new();
    test_vm.program = vec![0, 1];
    let r = test_vm.run_once();
    assert_eq!(r, StepResult::Faulted(VmFault::PcOutOfRange));
    assert_eq!(test_vm.pc, 1);
}

#[test]
fn test_load_program_resets_pc() {
    let mut test_vm = VM::get_test_vm();
    test_vm.registers[0] = 1;
    test_vm.program = vec![6, 0, 0, 0];
    test_vm.run();
    assert_ne!(test_vm.pc, 0);
    test_vm.load_program(vec![5, 0, 0, 0]);
    assert_eq!(test_vm.pc, 0);
    assert_eq!(test_vm.program, vec![5, 0, 0, 0]);
    assert_eq!(test_vm.registers[0], 1);
}

#[test]
fn test_comparisons_are_signed() {
    let mut test_vm = VM::new();
    test_vm.registers[0] = -1;
    test_vm.registers[1] = 1;
    test_vm.program = vec![14, 0, 1, 0, 13, 0, 1, 0, 11, 0, 1, 0];
    test_vm.run_once();
    assert_eq!(test_vm.equal_flag, false);
    test_vm.run_once();
    assert_eq!(test_vm.equal_flag, true);
    test_vm.run_once();
    assert_eq!(test_vm.equal_flag, false);
}
