//! The execution engine: a register bank, a program counter, a byte buffer
//! of encoded instructions, and a decode-dispatch-mutate step function.
//!
//! The meaning of one step is given by the mathematical function
//! [`spec_step`]; [`VM::execute_instruction`] is proved to implement it
//! exactly, and [`VM::run`] to iterate it while it signals `Continue`.

use crate::instruction::Opcode;
use crate::instruction::opcode_of;
use vstd::arithmetic::div_mod::lemma_div_basics;
use vstd::arithmetic::div_mod::lemma_div_is_ordered_by_denominator;
use vstd::arithmetic::div_mod::lemma_div_nonincreasing;
use vstd::arithmetic::div_mod::lemma_div_pos_is_pos;
use vstd::arithmetic::div_mod::lemma_fundamental_div_mod_converse;
use vstd::arithmetic::div_mod::lemma_mod_division_less_than_divisor;
use vstd::prelude::*;
use vstd::wrapping::i32_specs;

verus! {

/// Why a step ended the run without a fault.  `Halt` and `Illegal` are
/// normal terminal transitions, distinguished only for diagnostics.
#[derive(Debug, Clone, Copy, PartialEq, Eq, Structural)]
pub enum HaltReason {
    /// The program counter reached or passed the end of the buffer.
    EndOfProgram,
    /// A `Halt` instruction was executed.
    HaltInstruction,
    /// A byte with no defined operation was decoded.
    IllegalOpcode,
}

/// A dispatch-level engine fault.  Each stops execution instead of
/// corrupting state or reading out of bounds.
#[derive(Debug, Clone, Copy, PartialEq, Eq, Structural)]
pub enum VmFault {
    /// The divisor register held zero.
    DivideByZero,
    /// A backward jump whose distance exceeds the current program counter.
    JumpUnderflow,
    /// An operand register index outside `0..32`.
    RegisterOutOfRange,
    /// A resulting program counter outside `0..=len`, or an instruction
    /// whose operand bytes run past the end of the buffer.
    PcOutOfRange,
}

/// The continuation signal of one step: keep going, stop normally, or stop
/// on a fault.
#[derive(Debug, Clone, Copy, PartialEq, Eq, Structural)]
pub enum StepResult {
    /// The instruction completed; the next one can be decoded.
    Continue,
    /// A terminal condition was reached.
    Halted(HaltReason),
    /// A dispatch-level fault was detected.
    Faulted(VmFault),
}

/// The mathematical state of the machine: what a [`VM`] looks like to a
/// specification.
#[verifier::ext_equal]
pub ghost struct VmState {
    /// The 32 signed registers.
    pub registers: Seq<i32>,
    /// Byte offset of the next instruction byte.
    pub pc: nat,
    /// The encoded program.
    pub program: Seq<u8>,
    /// Remainder of the most recent division.
    pub remainder: u32,
    /// Result of the most recent comparison.
    pub equal_flag: bool,
}

/// How many operand bytes an opcode consumes after its own byte.
/// The encoding is variable-width: arithmetic and comparison opcodes
/// consume a full 4-byte slot, jumps consume only 2 bytes, and the
/// terminal opcodes consume 1.
pub open spec fn operand_bytes(op: Opcode) -> nat {
    match op {
        Opcode::Halt | Opcode::Illegal => 0,
        Opcode::Jmp | Opcode::Jmpf | Opcode::Jmpb | Opcode::Jmpe => 1,
        _ => 3,
    }
}

/// Big-endian combination of two bytes into a 16-bit value.
pub open spec fn word_be(hi: u8, lo: u8) -> u16 {
    (hi * 256 + lo) as u16
}

/// The two's-complement bit pattern of a signed register value, read as
/// unsigned.  A negative value becomes a large unsigned one; jump offsets
/// and the division remainder use this reinterpretation deliberately.
pub open spec fn as_unsigned(x: i32) -> u32 {
    x as u32
}

/// Truncating signed division, with the one unrepresentable quotient
/// (`i32::MIN / -1`) wrapping to `i32::MIN`.
pub open spec fn div_quotient(a: i32, b: i32) -> i32
    recommends
        b != 0,
{
    match a.checked_div(b) {
        Some(q) => q,
        None => i32::MIN,
    }
}

/// The remainder matching [`div_quotient`]: it has the sign of the
/// dividend, and is zero in the wrapped `i32::MIN / -1` case.
pub open spec fn div_remainder(a: i32, b: i32) -> i32
    recommends
        b != 0,
{
    match a.checked_rem(b) {
        Some(r) => r,
        None => 0,
    }
}

/// The semantics of a `Load`: store the immediate into the destination
/// register.  `v` is the state at the instruction's first byte, `v2` the
/// same state with the program counter already past the instruction.
pub open spec fn step_load(v: VmState, v2: VmState) -> (VmState, StepResult) {
    let dest = v.program[v.pc as int + 1];
    let imm = word_be(v.program[v.pc as int + 2], v.program[v.pc as int + 3]);
    if dest >= 32 {
        (v2, StepResult::Faulted(VmFault::RegisterOutOfRange))
    } else {
        (
            VmState { registers: v2.registers.update(dest as int, imm as i32), ..v2 },
            StepResult::Continue,
        )
    }
}

/// The semantics of the four arithmetic opcodes.  Addition, subtraction
/// and multiplication wrap; division faults on a zero divisor and stores
/// the remainder's bit pattern as unsigned.
pub open spec fn step_arith(v: VmState, v2: VmState, op: Opcode) -> (VmState, StepResult) {
    let r1 = v.program[v.pc as int + 1];
    let r2 = v.program[v.pc as int + 2];
    let dest = v.program[v.pc as int + 3];
    if r1 >= 32 || r2 >= 32 || dest >= 32 {
        (v2, StepResult::Faulted(VmFault::RegisterOutOfRange))
    } else {
        let a = v.registers[r1 as int];
        let b = v.registers[r2 as int];
        match op {
            Opcode::Add => (
                VmState { registers: v2.registers.update(dest as int, i32_specs::wrapping_add(a, b)), ..v2 },
                StepResult::Continue,
            ),
            Opcode::Sub => (
                VmState { registers: v2.registers.update(dest as int, i32_specs::wrapping_sub(a, b)), ..v2 },
                StepResult::Continue,
            ),
            Opcode::Mul => (
                VmState { registers: v2.registers.update(dest as int, i32_specs::wrapping_mul(a, b)), ..v2 },
                StepResult::Continue,
            ),
            Opcode::Div => if b == 0 {
                (v2, StepResult::Faulted(VmFault::DivideByZero))
            } else {
                (
                    VmState {
                        registers: v2.registers.update(dest as int, div_quotient(a, b)),
                        remainder: as_unsigned(div_remainder(a, b)),
                        ..v2
                    },
                    StepResult::Continue,
                )
            },
            _ => (v2, StepResult::Continue),
        }
    }
}

/// The semantics of the six comparison opcodes: signed comparison of two
/// registers into the equal flag.  The third operand byte is alignment
/// padding, read and discarded.
pub open spec fn step_compare(v: VmState, v2: VmState, op: Opcode) -> (VmState, StepResult) {
    let r1 = v.program[v.pc as int + 1];
    let r2 = v.program[v.pc as int + 2];
    if r1 >= 32 || r2 >= 32 {
        (v2, StepResult::Faulted(VmFault::RegisterOutOfRange))
    } else {
        let a = v.registers[r1 as int];
        let b = v.registers[r2 as int];
        let flag = match op {
            Opcode::Eq => a == b,
            Opcode::Neq => a != b,
            Opcode::Gte => a >= b,
            Opcode::Lte => a <= b,
            Opcode::Lt => a < b,
            Opcode::Gt => a > b,
            _ => false,
        };
        (VmState { equal_flag: flag, ..v2 }, StepResult::Continue)
    }
}

/// The semantics of the four jump opcodes.  The target register's bit
/// pattern is read as an unsigned byte offset; a resulting counter outside
/// `0..=len` is a fault, as is a backward distance exceeding the counter.
pub open spec fn step_jump(v: VmState, v2: VmState, op: Opcode) -> (VmState, StepResult) {
    let t = v.program[v.pc as int + 1];
    if t >= 32 {
        (v2, StepResult::Faulted(VmFault::RegisterOutOfRange))
    } else {
        let offset = as_unsigned(v.registers[t as int]) as nat;
        match op {
            Opcode::Jmp => if offset <= v.program.len() {
                (VmState { pc: offset, ..v2 }, StepResult::Continue)
            } else {
                (v2, StepResult::Faulted(VmFault::PcOutOfRange))
            },
            Opcode::Jmpf => if v2.pc + offset <= v.program.len() {
                (VmState { pc: (v2.pc + offset) as nat, ..v2 }, StepResult::Continue)
            } else {
                (v2, StepResult::Faulted(VmFault::PcOutOfRange))
            },
            Opcode::Jmpb => if offset <= v2.pc {
                (VmState { pc: (v2.pc - offset) as nat, ..v2 }, StepResult::Continue)
            } else {
                (v2, StepResult::Faulted(VmFault::JumpUnderflow))
            },
            Opcode::Jmpe => if !v.equal_flag {
                (v2, StepResult::Continue)
            } else if offset <= v.program.len() {
                (VmState { pc: offset, ..v2 }, StepResult::Continue)
            } else {
                (v2, StepResult::Faulted(VmFault::PcOutOfRange))
            },
            _ => (v2, StepResult::Continue),
        }
    }
}

/// One decode-dispatch-mutate cycle as a mathematical function.
///
/// Execution halts before decoding if the counter has reached the end of
/// the buffer.  Otherwise the opcode byte is consumed; if the buffer ends
/// before the opcode's operand bytes, the step faults.  Otherwise the
/// counter moves past the whole instruction and the opcode's semantics
/// apply.  On any fault the registers, remainder and flag are untouched.
pub open spec fn spec_step(v: VmState) -> (VmState, StepResult) {
    if v.pc >= v.program.len() {
        (v, StepResult::Halted(HaltReason::EndOfProgram))
    } else {
        let op = opcode_of(v.program[v.pc as int]);
        if v.pc + 1 + operand_bytes(op) > v.program.len() {
            (VmState { pc: (v.pc + 1) as nat, ..v }, StepResult::Faulted(VmFault::PcOutOfRange))
        } else {
            let v2 = VmState { pc: (v.pc + 1 + operand_bytes(op)) as nat, ..v };
            match op {
                Opcode::Halt => (v2, StepResult::Halted(HaltReason::HaltInstruction)),
                Opcode::Illegal => (v2, StepResult::Halted(HaltReason::IllegalOpcode)),
                Opcode::Load => step_load(v, v2),
                Opcode::Add | Opcode::Sub | Opcode::Mul | Opcode::Div => step_arith(v, v2, op),
                Opcode::Eq
                | Opcode::Neq
                | Opcode::Gte
                | Opcode::Lte
                | Opcode::Lt
                | Opcode::Gt => step_compare(v, v2, op),
                Opcode::Jmp | Opcode::Jmpf | Opcode::Jmpb | Opcode::Jmpe => step_jump(v, v2, op),
            }
        }
    }
}

/// Outside the one wrapping case, checked division and remainder on a
/// non-zero divisor both succeed: the truncating quotient and remainder
/// fit in `i32`.
proof fn lemma_div_defined(a: i32, b: i32)
    requires
        b != 0,
        !(a == i32::MIN && b == -1),
    ensures
        a.checked_div(b) is Some,
        a.checked_rem(b) is Some,
{
    let x = a as int;
    let d = b as int;
    if x == 0 {
    } else if x > 0 && d > 0 {
        lemma_div_pos_is_pos(x, d);
        lemma_div_nonincreasing(x, d);
        lemma_mod_division_less_than_divisor(x, d);
    } else if x < 0 && d < 0 {
        let p = x * -1;
        let q = d * -1;
        lemma_div_pos_is_pos(p, q);
        lemma_div_nonincreasing(p, q);
        lemma_mod_division_less_than_divisor(p, q);
        if a == i32::MIN {
            lemma_div_is_ordered_by_denominator(p, 2, q);
            lemma_fundamental_div_mod_converse(p, 2, 0x40000000, 0);
        }
    } else if x < 0 {
        let p = x * -1;
        lemma_div_pos_is_pos(p, d);
        lemma_div_nonincreasing(p, d);
        lemma_mod_division_less_than_divisor(p, d);
    } else {
        let q = d * -1;
        lemma_div_pos_is_pos(x, q);
        lemma_div_nonincreasing(x, q);
        lemma_mod_division_less_than_divisor(x, q);
    }
}

/// The one quotient that does not fit in a register: `i32::MIN / -1`
/// overflows, so both checked operations return `None`.
proof fn lemma_min_div_minus_one(a: i32, b: i32)
    requires
        a == i32::MIN,
        b == -1,
    ensures
        a.checked_div(b) is None,
        a.checked_rem(b) is None,
{
    let p = (a as int) * -1;
    lemma_div_basics(p);
}

/// The state reached after `n` steps, whatever their signals were.
pub open spec fn spec_steps(v: VmState, n: nat) -> VmState
    decreases n,
{
    if n == 0 {
        v
    } else {
        spec_steps(spec_step(v).0, (n - 1) as nat)
    }
}

/// The state of a machine as built by [`VM::new`]: every register zero,
/// counter at zero, empty program, remainder zero, flag clear.
pub open spec fn initial_state() -> VmState {
    VmState {
        registers: Seq::new(32, |i: int| 0i32),
        pc: 0,
        program: Seq::empty(),
        remainder: 0,
        equal_flag: false,
    }
}

/// The register-based virtual machine.
pub struct VM {
    /// The register bank: 32 signed 32-bit integers.
    pub registers: [i32; 32],
    /// Program counter: byte offset of the next instruction byte.
    pub pc: usize,
    /// The encoded program.
    pub program: Vec<u8>,
    /// Remainder of the most recent division, as an unsigned bit pattern.
    pub remainder: u32,
    /// Result of the most recent comparison.
    pub equal_flag: bool,
}

impl View for VM {
    type V = VmState;

    open spec fn view(&self) -> VmState {
        VmState {
            registers: self.registers@,
            pc: self.pc as nat,
            program: self.program@,
            remainder: self.remainder,
            equal_flag: self.equal_flag,
        }
    }
}

impl VM {
    /// A fresh machine in the initial state.
    pub fn new() -> (vm: VM)
        ensures
            vm@ == initial_state(),
    {
        let vm = VM {
            registers: [0; 32],
            pc: 0,
            program: Vec::new(),
            remainder: 0,
            equal_flag: false,
        };
        proof {
            assert(vm@ =~= initial_state());
        }
        vm
    }

    /// Replace the program and reset the counter to the start of the new
    /// buffer.  Registers, remainder and flag are kept; the counter is
    /// reset whatever state the previous run left behind, since reusing a
    /// stale counter against a new buffer is meaningless.
    pub fn load_program(&mut self, program: Vec<u8>)
        ensures
            final(self)@ == (VmState { program: program@, pc: 0, ..old(self)@ }),
    {
        self.program = program;
        self.pc = 0;
    }

    /// Consume one byte and map it through the opcode table.
    fn decode_opcode(&mut self) -> (op: Opcode)
        requires
            old(self).pc < old(self).program.len(),
        ensures
            op == opcode_of(old(self)@.program[old(self)@.pc as int]),
            final(self)@ == (VmState { pc: (old(self)@.pc + 1) as nat, ..old(self)@ }),
    {
        let op = Opcode::from(self.program[self.pc]);
        self.pc = self.pc + 1;
        op
    }

    /// Consume one raw operand byte.
    fn next_8_bits(&mut self) -> (b: u8)
        requires
            old(self).pc < old(self).program.len(),
        ensures
            b == old(self)@.program[old(self)@.pc as int],
            final(self)@ == (VmState { pc: (old(self)@.pc + 1) as nat, ..old(self)@ }),
    {
        let b = self.program[self.pc];
        self.pc = self.pc + 1;
        b
    }

    /// Consume two bytes and combine them big-endian into a 16-bit value.
    fn next_16_bits(&mut self) -> (w: u16)
        requires
            old(self).pc + 2 <= old(self).program.len(),
        ensures
            w == word_be(
                old(self)@.program[old(self)@.pc as int],
                old(self)@.program[old(self)@.pc as int + 1],
            ),
            final(self)@ == (VmState { pc: (old(self)@.pc + 2) as nat, ..old(self)@ }),
    {
        let hi = self.program[self.pc];
        let lo = self.program[self.pc + 1];
        self.pc = self.pc + 2;
        proof {
            assert(((hi as u16) << 8) | (lo as u16) == (hi as u16) * 256 + (lo as u16))
                by (bit_vector);
        }
        ((hi as u16) << 8) | (lo as u16)
    }

    /// Execute exactly one instruction: the decode-dispatch-mutate cycle
    /// of [`spec_step`], returning its continuation signal.
    pub fn execute_instruction(&mut self) -> (r: StepResult)
        ensures
            final(self)@ == spec_step(old(self)@).0,
            r == spec_step(old(self)@).1,
    {
        if self.pc >= self.program.len() {
            return StepResult::Halted(HaltReason::EndOfProgram);
        }
        let ghost v0 = self@;
        let op = self.decode_opcode();
        let needed: usize = match op {
            Opcode::Halt | Opcode::Illegal => 0,
            Opcode::Jmp | Opcode::Jmpf | Opcode::Jmpb | Opcode::Jmpe => 1,
            _ => 3,
        };
        proof {
            assert(needed == operand_bytes(op));
        }
        if needed > self.program.len() - self.pc {
            proof {
                assert(self@ =~= spec_step(v0).0);
            }
            return StepResult::Faulted(VmFault::PcOutOfRange);
        }
        match op {
            Opcode::Halt => StepResult::Halted(HaltReason::HaltInstruction),
            Opcode::Illegal => StepResult::Halted(HaltReason::IllegalOpcode),
            Opcode::Load => {
                let dest = self.next_8_bits();
                let imm = self.next_16_bits();
                if dest >= 32 {
                    proof {
                        assert(self@ =~= spec_step(v0).0);
                    }
                    return StepResult::Faulted(VmFault::RegisterOutOfRange);
                }
                self.registers[dest as usize] = imm as i32;
                proof {
                    assert(self@ =~= spec_step(v0).0);
                }
                StepResult::Continue
            }
            Opcode::Add => {
                let r1 = self.next_8_bits();
                let r2 = self.next_8_bits();
                let dest = self.next_8_bits();
                if r1 >= 32 || r2 >= 32 || dest >= 32 {
                    proof {
                        assert(self@ =~= spec_step(v0).0);
                    }
                    return StepResult::Faulted(VmFault::RegisterOutOfRange);
                }
                let a = self.registers[r1 as usize];
                let b = self.registers[r2 as usize];
                self.registers[dest as usize] = a.wrapping_add(b);
                proof {
                    assert(self@ =~= spec_step(v0).0);
                }
                StepResult::Continue
            }
            Opcode::Sub => {
                let r1 = self.next_8_bits();
                let r2 = self.next_8_bits();
                let dest = self.next_8_bits();
                if r1 >= 32 || r2 >= 32 || dest >= 32 {
                    proof {
                        assert(self@ =~= spec_step(v0).0);
                    }
                    return StepResult::Faulted(VmFault::RegisterOutOfRange);
                }
                let a = self.registers[r1 as usize];
                let b = self.registers[r2 as usize];
                self.registers[dest as usize] = a.wrapping_sub(b);
                proof {
                    assert(self@ =~= spec_step(v0).0);
                }
                StepResult::Continue
            }
            Opcode::Mul => {
                let r1 = self.next_8_bits();
                let r2 = self.next_8_bits();
                let dest = self.next_8_bits();
                if r1 >= 32 || r2 >= 32 || dest >= 32 {
                    proof {
                        assert(self@ =~= spec_step(v0).0);
                    }
                    return StepResult::Faulted(VmFault::RegisterOutOfRange);
                }
                let a = self.registers[r1 as usize];
                let b = self.registers[r2 as usize];
                self.registers[dest as usize] = a.wrapping_mul(b);
                proof {
                    assert(self@ =~= spec_step(v0).0);
                }
                StepResult::Continue
            }
            Opcode::Div => {
                let r1 = self.next_8_bits();
                let r2 = self.next_8_bits();
                let dest = self.next_8_bits();
                if r1 >= 32 || r2 >= 32 || dest >= 32 {
                    proof {
                        assert(self@ =~= spec_step(v0).0);
                    }
                    return StepResult::Faulted(VmFault::RegisterOutOfRange);
                }
                let a = self.registers[r1 as usize];
                let b = self.registers[r2 as usize];
                if b == 0 {
                    proof {
                        assert(self@ =~= spec_step(v0).0);
                    }
                    return StepResult::Faulted(VmFault::DivideByZero);
                }
                match (a.checked_div(b), a.checked_rem(b)) {
                    (Some(q), Some(rem)) => {
                        self.registers[dest as usize] = q;
                        self.remainder = #[verifier::truncate] (rem as u32);
                        proof {
                            assert(self@ =~= spec_step(v0).0);
                        }
                        StepResult::Continue
                    }
                    _ => {
                        proof {
                            if a == i32::MIN && b == -1 {
                                lemma_min_div_minus_one(a, b);
                            } else {
                                lemma_div_defined(a, b);
                            }
                        }
                        self.registers[dest as usize] = i32::MIN;
                        self.remainder = 0;
                        proof {
                            assert(self@ =~= spec_step(v0).0);
                        }
                        StepResult::Continue
                    }
                }
            }
            Opcode::Eq => {
                let r1 = self.next_8_bits();
                let r2 = self.next_8_bits();
                let _padding = self.next_8_bits();
                if r1 >= 32 || r2 >= 32 {
                    proof {
                        assert(self@ =~= spec_step(v0).0);
                    }
                    return StepResult::Faulted(VmFault::RegisterOutOfRange);
                }
                self.equal_flag = self.registers[r1 as usize] == self.registers[r2 as usize];
                proof {
                    assert(self@ =~= spec_step(v0).0);
                }
                StepResult::Continue
            }
            Opcode::Neq => {
                let r1 = self.next_8_bits();
                let r2 = self.next_8_bits();
                let _padding = self.next_8_bits();
                if r1 >= 32 || r2 >= 32 {
                    proof {
                        assert(self@ =~= spec_step(v0).0);
                    }
                    return StepResult::Faulted(VmFault::RegisterOutOfRange);
                }
                self.equal_flag = self.registers[r1 as usize] != self.registers[r2 as usize];
                proof {
                    assert(self@ =~= spec_step(v0).0);
                }
                StepResult::Continue
            }
            Opcode::Gte => {
                let r1 = self.next_8_bits();
                let r2 = self.next_8_bits();
                let _padding = self.next_8_bits();
                if r1 >= 32 || r2 >= 32 {
                    proof {
                        assert(self@ =~= spec_step(v0).0);
                    }
                    return StepResult::Faulted(VmFault::RegisterOutOfRange);
                }
                self.equal_flag = self.registers[r1 as usize] >= self.registers[r2 as usize];
                proof {
                    assert(self@ =~= spec_step(v0).0);
                }
                StepResult::Continue
            }
            Opcode::Lte => {
                let r1 = self.next_8_bits();
                let r2 = self.next_8_bits();
                let _padding = self.next_8_bits();
                if r1 >= 32 || r2 >= 32 {
                    proof {
                        assert(self@ =~= spec_step(v0).0);
                    }
                    return StepResult::Faulted(VmFault::RegisterOutOfRange);
                }
                self.equal_flag = self.registers[r1 as usize] <= self.registers[r2 as usize];
                proof {
                    assert(self@ =~= spec_step(v0).0);
                }
                StepResult::Continue
            }
            Opcode::Lt => {
                let r1 = self.next_8_bits();
                let r2 = self.next_8_bits();
                let _padding = self.next_8_bits();
                if r1 >= 32 || r2 >= 32 {
                    proof {
                        assert(self@ =~= spec_step(v0).0);
                    }
                    return StepResult::Faulted(VmFault::RegisterOutOfRange);
                }
                self.equal_flag = self.registers[r1 as usize] < self.registers[r2 as usize];
                proof {
                    assert(self@ =~= spec_step(v0).0);
                }
                StepResult::Continue
            }
            Opcode::Gt => {
                let r1 = self.next_8_bits();
                let r2 = self.next_8_bits();
                let _padding = self.next_8_bits();
                if r1 >= 32 || r2 >= 32 {
                    proof {
                        assert(self@ =~= spec_step(v0).0);
                    }
                    return StepResult::Faulted(VmFault::RegisterOutOfRange);
                }
                self.equal_flag = self.registers[r1 as usize] > self.registers[r2 as usize];
                proof {
                    assert(self@ =~= spec_step(v0).0);
                }
                StepResult::Continue
            }
            Opcode::Jmp => {
                let t = self.next_8_bits();
                if t >= 32 {
                    proof {
                        assert(self@ =~= spec_step(v0).0);
                    }
                    return StepResult::Faulted(VmFault::RegisterOutOfRange);
                }
                let target = #[verifier::truncate] (self.registers[t as usize] as u32);
                if target as usize <= self.program.len() {
                    self.pc = target as usize;
                    proof {
                        assert(self@ =~= spec_step(v0).0);
                    }
                    StepResult::Continue
                } else {
                    proof {
                        assert(self@ =~= spec_step(v0).0);
                    }
                    StepResult::Faulted(VmFault::PcOutOfRange)
                }
            }
            Opcode::Jmpf => {
                let t = self.next_8_bits();
                if t >= 32 {
                    proof {
                        assert(self@ =~= spec_step(v0).0);
                    }
                    return StepResult::Faulted(VmFault::RegisterOutOfRange);
                }
                let offset = #[verifier::truncate] (self.registers[t as usize] as u32);
                if offset as usize <= self.program.len() - self.pc {
                    self.pc = self.pc + offset as usize;
                    proof {
                        assert(self@ =~= spec_step(v0).0);
                    }
                    StepResult::Continue
                } else {
                    proof {
                        assert(self@ =~= spec_step(v0).0);
                    }
                    StepResult::Faulted(VmFault::PcOutOfRange)
                }
            }
            Opcode::Jmpb => {
                let t = self.next_8_bits();
                if t >= 32 {
                    proof {
                        assert(self@ =~= spec_step(v0).0);
                    }
                    return StepResult::Faulted(VmFault::RegisterOutOfRange);
                }
                let offset = #[verifier::truncate] (self.registers[t as usize] as u32);
                if offset as usize <= self.pc {
                    self.pc = self.pc - offset as usize;
                    proof {
                        assert(self@ =~= spec_step(v0).0);
                    }
                    StepResult::Continue
                } else {
                    proof {
                        assert(self@ =~= spec_step(v0).0);
                    }
                    StepResult::Faulted(VmFault::JumpUnderflow)
                }
            }
            Opcode::Jmpe => {
                let t = self.next_8_bits();
                if t >= 32 {
                    proof {
                        assert(self@ =~= spec_step(v0).0);
                    }
                    return StepResult::Faulted(VmFault::RegisterOutOfRange);
                }
                let target = #[verifier::truncate] (self.registers[t as usize] as u32);
                if self.equal_flag {
                    if target as usize <= self.program.len() {
                        self.pc = target as usize;
                        proof {
                            assert(self@ =~= spec_step(v0).0);
                        }
                        StepResult::Continue
                    } else {
                        proof {
                            assert(self@ =~= spec_step(v0).0);
                        }
                        StepResult::Faulted(VmFault::PcOutOfRange)
                    }
                } else {
                    proof {
                        assert(self@ =~= spec_step(v0).0);
                    }
                    StepResult::Continue
                }
            }
        }
    }

    /// Execute exactly one instruction; the single-step entry point of the
    /// engine surface.
    pub fn run_once(&mut self) -> (r: StepResult)
        ensures
            final(self)@ == spec_step(old(self)@).0,
            r == spec_step(old(self)@).1,
    {
        self.execute_instruction()
    }

    /// Execute instructions until a step signals something other than
    /// `Continue`, and return that terminal signal: `Halted` on normal
    /// termination, `Faulted` on a dispatch-level fault.
    ///
    /// The loop carries an explicit budget of `u64::MAX` instructions so
    /// that it provably terminates; no physical run exhausts it.  If it
    /// were ever exhausted, `run` would give up and report the `Continue`
    /// signal of the last executed instruction.
    pub fn run(&mut self) -> (r: StepResult)
        ensures
            !(r is Continue) ==> exists|n: nat|
                {
                    &&& final(self)@ == spec_step(#[trigger] spec_steps(old(self)@, n)).0
                    &&& r == spec_step(spec_steps(old(self)@, n)).1
                    &&& forall|m: nat|
                        m < n ==> (spec_step(spec_steps(old(self)@, m)).1) is Continue
                },
            r is Continue ==> {
                &&& final(self)@ == spec_steps(old(self)@, u64::MAX as nat)
                &&& forall|m: nat|
                    m < u64::MAX ==> (spec_step(#[trigger] spec_steps(old(self)@, m)).1)
                        is Continue
            },
    {
        let ghost s0 = self@;
        let ghost mut n: nat = 0nat;
        let mut fuel: u64 = u64::MAX;
        while fuel > 0
            invariant
                s0 == old(self)@,
                self@ == spec_steps(s0, n),
                n + fuel == u64::MAX,
                forall|m: nat| m < n ==> (spec_step(#[trigger] spec_steps(s0, m)).1) is Continue,
            decreases fuel,
        {
            let r = self.execute_instruction();
            match r {
                StepResult::Continue => {
                    proof {
                        lemma_spec_steps_snoc(s0, n);
                        n = n + 1;
                    }
                }
                _ => {
                    proof {
                        assert(self@ == spec_step(spec_steps(s0, n)).0);
                        assert(r == spec_step(spec_steps(s0, n)).1);
                    }
                    return r;
                }
            }
            fuel = fuel - 1;
        }
        StepResult::Continue
    }

    /// The machine most tests start from: fresh, with registers 0 and 1
    /// holding 15 and 10.
    pub fn get_test_vm() -> (vm: VM)
        ensures
            vm@ == (VmState {
                registers: initial_state().registers.update(0, 15i32).update(1, 10i32),
                ..initial_state()
            }),
    {
        let mut vm = VM::new();
        vm.registers[0] = 15;
        vm.registers[1] = 10;
        vm
    }
}

/// Iterating the step function composes: the state after `n + 1` steps is
/// one step past the state after `n`.
pub proof fn lemma_spec_steps_snoc(v: VmState, n: nat)
    ensures
        spec_steps(v, n + 1) == spec_step(spec_steps(v, n)).0,
    decreases n,
{
    if n == 0 {
        assert(spec_steps(v, 1) == spec_steps(spec_step(v).0, 0));
        assert(spec_steps(spec_step(v).0, 0) == spec_step(v).0);
    } else {
        lemma_spec_steps_snoc(spec_step(v).0, (n - 1) as nat);
        assert(spec_steps(v, n + 1) == spec_steps(spec_step(v).0, n));
        assert(spec_steps(v, n) == spec_steps(spec_step(v).0, (n - 1) as nat));
    }
}

/// A program whose only instruction is `Load r, imm`: after one step the
/// destination register holds the immediate, every other register is
/// untouched, the counter equals the instruction's encoded length of 4,
/// and execution continues.
pub proof fn lemma_step_load_program(v: VmState, r: u8, hi: u8, lo: u8)
    requires
        v.registers.len() == 32,
        r < 32,
        v.pc == 0,
        v.program == seq![0u8, r, hi, lo],
    ensures
        spec_step(v).0.registers[r as int] == word_be(hi, lo) as i32,
        spec_step(v).0.pc == 4,
        spec_step(v).1 is Continue,
        forall|i: int| 0 <= i < 32 && i != r ==> spec_step(v).0.registers[i] == v.registers[i],
{
    assert(v.program[0] == 0u8);
}

/// Encountering `Halt` or `Illegal` as the decoded opcode reaches the
/// halted outcome at once, consuming only the opcode byte and mutating no
/// register, remainder or flag.
pub proof fn lemma_step_halt_preserves_state(v: VmState)
    requires
        v.pc < v.program.len(),
        opcode_of(v.program[v.pc as int]) is Halt || opcode_of(v.program[v.pc as int]) is Illegal,
    ensures
        spec_step(v).1 is Halted,
        spec_step(v).0.registers == v.registers,
        spec_step(v).0.remainder == v.remainder,
        spec_step(v).0.equal_flag == v.equal_flag,
        spec_step(v).0.pc == v.pc + 1,
{
}

/// Division by a zero-valued register reports the divide-by-zero fault and
/// mutates nothing: not the destination register, not the remainder.
pub proof fn lemma_step_div_by_zero(v: VmState)
    requires
        v.pc + 4 <= v.program.len(),
        opcode_of(v.program[v.pc as int]) is Div,
        v.program[v.pc as int + 1] < 32,
        v.program[v.pc as int + 2] < 32,
        v.program[v.pc as int + 3] < 32,
        v.registers[v.program[v.pc as int + 2] as int] == 0,
    ensures
        spec_step(v).1 == StepResult::Faulted(VmFault::DivideByZero),
        spec_step(v).0.registers == v.registers,
        spec_step(v).0.remainder == v.remainder,
        spec_step(v).0.equal_flag == v.equal_flag,
{
}

} // verus!