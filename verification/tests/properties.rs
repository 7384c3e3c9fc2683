use bytes::Bytes;
use regvm::assembler::AsmInstruction;
use regvm::assembler::Token;
use regvm::fault::Fault;
use regvm::instruction::Opcode;
use regvm::selector::Bank;
use regvm::selector::bank_of;
use regvm::selector::index_of;
use regvm::stack::ScratchStack;
use regvm::vm::VM;
use regvm::vm_script::VMScript;

fn run_single(script_bytes: &[u8]) -> (VMScript, Result<(), Fault>) {
    let libs = vec![Bytes::copy_from_slice(script_bytes)];
    let mut stack = ScratchStack::new();
    let mut vm = VMScript::new();
    let r = vm.run(&libs, &mut stack);
    (vm, r)
}

#[test]
fn test_bank_and_index_of_selectors() {
    assert_eq!(bank_of(0x05), Ok(Bank::Bank32));
    assert_eq!(index_of(0x05), 5);
    assert_eq!(bank_of(0x45), Ok(Bank::Bank64));
    assert_eq!(index_of(0x45), 5);
    assert_eq!(bank_of(0x85), Ok(Bank::Bank128));
    assert_eq!(index_of(0x85), 5);
    assert_eq!(bank_of(0xC5), Err(Fault::InvalidRegister));
    assert_eq!(index_of(0xFF), 63);
}

#[test]
fn test_invalid_selector_faults() {
    let (_, r) = run_single(&[Opcode::INC as u8, 0xC0, 0]);
    assert_eq!(r, Err(Fault::InvalidRegister));
}

#[test]
fn test_lod_big_endian_order() {
    let (vm, r) = run_single(&[Opcode::LOD as u8, 0, 0x01, 0x02, 0x03, 0x04, 0]);
    assert!(r.is_ok());
    assert_eq!(vm.reg32(0), 0x01020304);
}

#[test]
fn test_stack_roundtrip_values() {
    let mut stack = ScratchStack::new();
    stack.push_u32(0xDEADBEEF);
    assert_eq!(stack.len(), 4);
    assert_eq!(stack.pop_u32(), Some(0xDEADBEEF));
    assert_eq!(stack.len(), 0);
    stack.push_u64(0x0123456789ABCDEF);
    assert_eq!(stack.pop_u64(), Some(0x0123456789ABCDEF));
    stack.push_u128(0x0123456789ABCDEF_FEDCBA9876543210);
    assert_eq!(stack.pop_u128(), Some(0x0123456789ABCDEF_FEDCBA9876543210));
}

#[test]
fn test_stack_is_lifo_across_interleaved_ops() {
    let mut stack = ScratchStack::new();
    stack.push_u32(1);
    stack.push_u32(2);
    assert_eq!(stack.pop_u32(), Some(2));
    stack.push_u32(3);
    assert_eq!(stack.pop_u32(), Some(3));
    assert_eq!(stack.pop_u32(), Some(1));
    assert_eq!(stack.pop_u32(), None);
}

#[test]
fn test_push_pop_roundtrip_64() {
    let reg: u8 = 1 << 6;
    let (vm, r) = run_single(&[
        Opcode::LOD as u8,
        reg,
        0x01,
        0x02,
        0x03,
        0x04,
        0x05,
        0x06,
        0x07,
        0x08,
        Opcode::PSH as u8,
        reg,
        Opcode::LOD as u8,
        reg,
        0,
        0,
        0,
        0,
        0,
        0,
        0,
        0,
        Opcode::POP as u8,
        reg,
        0,
    ]);
    assert!(r.is_ok());
    assert_eq!(vm.reg64(0), 0x0102030405060708);
}

#[test]
fn test_push_pop_roundtrip_128() {
    let reg: u8 = 1 << 7;
    let (vm, r) = run_single(&[
        Opcode::LOD as u8,
        reg,
        0x01,
        0x02,
        0x03,
        0x04,
        0x05,
        0x06,
        0x07,
        0x08,
        0x09,
        0x0A,
        0x0B,
        0x0C,
        0x0D,
        0x0E,
        0x0F,
        0x10,
        Opcode::PSH as u8,
        reg,
        Opcode::LOD as u8,
        reg,
        0,
        0,
        0,
        0,
        0,
        0,
        0,
        0,
        0,
        0,
        0,
        0,
        0,
        0,
        0,
        0,
        Opcode::POP as u8,
        reg,
        0,
    ]);
    assert!(r.is_ok());
    assert_eq!(vm.reg128(0), 0x0102030405060708_090A0B0C0D0E0F10);
}

#[test]
fn test_div_by_zero_faults() {
    let (_, r) = run_single(&[
        Opcode::LOD as u8,
        0,
        0,
        0,
        0,
        100,
        Opcode::DIV as u8,
        0,
        1,
        0,
    ]);
    assert_eq!(r, Err(Fault::DivisionByZero));
}

#[test]
fn test_mod_by_zero_faults() {
    let (_, r) = run_single(&[
        Opcode::LOD as u8,
        0,
        0,
        0,
        0,
        100,
        Opcode::MOD as u8,
        0,
        1,
        0,
    ]);
    assert_eq!(r, Err(Fault::DivisionByZero));
}

#[test]
fn test_div_overflow_wraps() {
    // The most negative 32-bit value divided by minus one wraps back to the
    // most negative value, with remainder zero.
    let (vm, r) = run_single(&[
        Opcode::LOD as u8,
        0,
        0x80,
        0x00,
        0x00,
        0x00,
        Opcode::LOD as u8,
        1,
        0xFF,
        0xFF,
        0xFF,
        0xFF,
        Opcode::DIV as u8,
        0,
        1,
        0,
    ]);
    assert!(r.is_ok());
    assert_eq!(vm.reg32(0), i32::MIN);
    assert_eq!(vm.rem32(), 0);
}

#[test]
fn test_div_negative_truncates_toward_zero() {
    // -7 / 2 truncates to -3 with remainder -1 (stored as its bit pattern).
    let (vm, r) = run_single(&[
        Opcode::LOD as u8,
        0,
        0xFF,
        0xFF,
        0xFF,
        0xF9,
        Opcode::LOD as u8,
        1,
        0,
        0,
        0,
        2,
        Opcode::DIV as u8,
        0,
        1,
        0,
    ]);
    assert!(r.is_ok());
    assert_eq!(vm.reg32(0), -3);
    assert_eq!(vm.rem32() as i32, -1);
}

#[test]
fn test_cmp_sets_exactly_one_flag() {
    let greater = &[
        Opcode::LOD as u8,
        0,
        0,
        0,
        0,
        5,
        Opcode::LOD as u8,
        1,
        0,
        0,
        0,
        3,
        Opcode::CMP as u8,
        0,
        1,
        0,
    ];
    let (vm, r) = run_single(greater);
    assert!(r.is_ok());
    assert_eq!(
        (vm.flag_eq(), vm.flag_gt(), vm.flag_lt()),
        (false, true, false)
    );

    let equal = &[
        Opcode::LOD as u8,
        0,
        0,
        0,
        0,
        7,
        Opcode::LOD as u8,
        1,
        0,
        0,
        0,
        7,
        Opcode::CMP as u8,
        0,
        1,
        0,
    ];
    let (vm, r) = run_single(equal);
    assert!(r.is_ok());
    assert_eq!(
        (vm.flag_eq(), vm.flag_gt(), vm.flag_lt()),
        (true, false, false)
    );

    // -1 compared against 1 is a signed comparison: less, not greater.
    let less = &[
        Opcode::LOD as u8,
        0,
        0xFF,
        0xFF,
        0xFF,
        0xFF,
        Opcode::LOD as u8,
        1,
        0,
        0,
        0,
        1,
        Opcode::CMP as u8,
        0,
        1,
        0,
    ];
    let (vm, r) = run_single(less);
    assert!(r.is_ok());
    assert_eq!(
        (vm.flag_eq(), vm.flag_gt(), vm.flag_lt()),
        (false, false, true)
    );
}

#[test]
fn test_inc_wraps_at_width() {
    let (vm, r) = run_single(&[
        Opcode::LOD as u8,
        0,
        0x7F,
        0xFF,
        0xFF,
        0xFF,
        Opcode::INC as u8,
        0,
        0,
    ]);
    assert!(r.is_ok());
    assert_eq!(vm.reg32(0), i32::MIN);
}

#[test]
fn test_shift_amount_wraps_at_width() {
    // A shift amount is taken modulo the register width: shifting a 32-bit
    // register by 35 shifts by 3.
    let (vm, r) = run_single(&[
        Opcode::LOD as u8,
        0,
        0,
        0,
        0,
        0x40,
        Opcode::SHR as u8,
        0,
        35,
        0,
    ]);
    assert!(r.is_ok());
    assert_eq!(vm.reg32(0), 0x40 >> 3);
}

#[test]
fn test_cal_out_of_bounds_faults() {
    let (_, r) = run_single(&[Opcode::CAL as u8, 5, 0]);
    assert_eq!(r, Err(Fault::CallOutOfBounds));

    // A segment may never call itself or an earlier segment: even operand 0
    // resolves past the end of a one-segment library.
    let (_, r) = run_single(&[Opcode::CAL as u8, 0, 0]);
    assert_eq!(r, Err(Fault::CallOutOfBounds));
}

#[test]
fn test_call_runs_private_registers() {
    // Segment 0 calls segment 1, which loads its own register 0. The
    // caller's register file stays untouched.
    let libs = vec![
        Bytes::copy_from_slice(&[Opcode::CAL as u8, 0, 0]),
        Bytes::copy_from_slice(&[Opcode::LOD as u8, 0, 0, 0, 0, 0xFF, 0]),
    ];
    let mut stack = ScratchStack::new();
    let mut vm = VMScript::new();
    let r = vm.run(&libs, &mut stack);
    assert!(r.is_ok());
    assert_eq!(vm.reg32(0), 0);
}

#[test]
fn test_stream_overrun_faults() {
    let (_, r) = run_single(&[Opcode::LOD as u8, 0, 0, 0]);
    assert_eq!(r, Err(Fault::StreamOverrun));

    // A program with no trailing HLT overruns after its last instruction.
    let (_, r) = run_single(&[Opcode::NOP as u8]);
    assert_eq!(r, Err(Fault::StreamOverrun));
}

#[test]
fn test_unknown_opcode_faults() {
    let (_, r) = run_single(&[0x42, 0]);
    assert_eq!(r, Err(Fault::UnknownOpcode));
}

#[test]
fn test_pop_underflow_faults() {
    let (_, r) = run_single(&[Opcode::POP as u8, 0, 0]);
    assert_eq!(r, Err(Fault::StackUnderflow));
}

#[test]
fn test_vm_reports_fault_as_false() {
    let mut vm = VM::new(vec![Bytes::copy_from_slice(&[Opcode::CAL as u8, 9, 0])]);
    assert_eq!(vm.run(), false);
}

#[test]
fn test_reset_clears_state() {
    let (mut vm, r) = run_single(&[
        Opcode::LOD as u8,
        0,
        0,
        0,
        0,
        9,
        Opcode::LOD as u8,
        1,
        0,
        0,
        0,
        2,
        Opcode::DIV as u8,
        0,
        1,
        0,
    ]);
    assert!(r.is_ok());
    assert_eq!(vm.reg32(0), 4);
    assert_eq!(vm.rem32(), 1);
    vm.reset();
    assert_eq!(vm.reg32(0), 0);
    assert_eq!(vm.rem32(), 0);
    assert_eq!(
        (vm.flag_eq(), vm.flag_gt(), vm.flag_lt()),
        (false, false, false)
    );
}

#[test]
fn test_banks_are_disjoint() {
    // Index 1 of the 32-bit bank is unrelated to index 1 of the other banks.
    let (vm, r) = run_single(&[
        Opcode::LOD as u8,
        0x01,
        0,
        0,
        0,
        7,
        Opcode::LOD as u8,
        0x41,
        0,
        0,
        0,
        0,
        0,
        0,
        0,
        9,
        0,
    ]);
    assert!(r.is_ok());
    assert_eq!(vm.reg32(1), 7);
    assert_eq!(vm.reg64(1), 9);
    assert_eq!(vm.reg128(1), 0);
}

#[test]
fn test_to_bytes_emits_documented_layout() {
    let inst = AsmInstruction {
        opcode: Token::Op { code: Opcode::LOD },
        operand1: Some(Token::Reg { reg_num: 0 }),
        operand2: Some(Token::Number { value: 100 }),
        operand3: None,
    };
    assert_eq!(inst.to_bytes(), vec![Opcode::LOD as u8, 0, 0, 0, 0, 100]);
}

#[test]
fn test_to_bytes_sizes_immediate_by_bank() {
    // A destination in the 64-bit bank gets an 8-byte big-endian
    // immediate, sign-extended from the integer operand.
    let inst = AsmInstruction {
        opcode: Token::Op { code: Opcode::LOD },
        operand1: Some(Token::Reg { reg_num: 0x40 }),
        operand2: Some(Token::Number { value: 100 }),
        operand3: None,
    };
    assert_eq!(
        inst.to_bytes(),
        vec![Opcode::LOD as u8, 0x40, 0, 0, 0, 0, 0, 0, 0, 100]
    );

    let negative = AsmInstruction {
        opcode: Token::Op { code: Opcode::LOD },
        operand1: Some(Token::Reg { reg_num: 0x40 }),
        operand2: Some(Token::Number { value: -1 }),
        operand3: None,
    };
    assert_eq!(
        negative.to_bytes(),
        vec![Opcode::LOD as u8, 0x40, 0xFF, 0xFF, 0xFF, 0xFF, 0xFF, 0xFF, 0xFF, 0xFF]
    );

    // A destination in the 128-bit bank gets a 16-byte immediate.
    let wide = AsmInstruction {
        opcode: Token::Op { code: Opcode::LOD },
        operand1: Some(Token::Reg { reg_num: 0x80 }),
        operand2: Some(Token::Number { value: 5 }),
        operand3: None,
    };
    assert_eq!(
        wide.to_bytes(),
        vec![Opcode::LOD as u8, 0x80, 0, 0, 0, 0, 0, 0, 0, 0, 0, 0, 0, 0, 0, 0, 0, 5]
    );
}

#[test]
fn test_assembled_wide_load_runs() {
    // A load whose register names the 64-bit bank assembles to the wide
    // layout and the interpreter reads the immediate back at that width.
    let (used, p) = regvm::parser::script("ld r64 i32100\n").unwrap();
    assert_eq!(used, "ld r64 i32100\n".len());
    let mut program = p.instructions[0].to_bytes();
    program.push(Opcode::HLT as u8);
    assert_eq!(program.len(), 11);
    let (vm, r) = run_single(&program);
    assert!(r.is_ok());
    assert_eq!(vm.reg64(0), 100);

    // A register number with the invalid bank bits still assembles, and
    // the interpreter faults at the selector.
    let (_, p) = regvm::parser::script("ld r192 i321\n").unwrap();
    let mut program = p.instructions[0].to_bytes();
    program.push(Opcode::HLT as u8);
    let (_, r) = run_single(&program);
    assert_eq!(r, Err(Fault::InvalidRegister));
}

#[test]
fn test_assembled_program_runs() {
    // Assemble "load 258 into register 0" by hand, append a halt, and run
    // it: the interpreter reads back exactly the assembled immediate.
    let inst = AsmInstruction {
        opcode: Token::Op { code: Opcode::LOD },
        operand1: Some(Token::Reg { reg_num: 0 }),
        operand2: Some(Token::Number { value: 258 }),
        operand3: None,
    };
    let mut program = inst.to_bytes();
    program.push(Opcode::HLT as u8);
    let (vm, r) = run_single(&program);
    assert!(r.is_ok());
    assert_eq!(vm.reg32(0), 258);
}
