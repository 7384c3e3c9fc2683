#![allow(overflowing_literals)]
#![allow(unused_parens)]

use bytes::Bytes;
use regvm::instruction::Opcode;
use regvm::stack::ScratchStack;
use regvm::vm::VM;
use regvm::vm_script::VMScript;

fn run_script(script_bytes: &[u8]) -> VMScript {
    let libs = vec![Bytes::copy_from_slice(script_bytes)];
    let mut stack = ScratchStack::new();
    let mut test_vm = VMScript::new();
    let _ = test_vm.run(&libs, &mut stack);
    test_vm
}

#[test]
fn test_heap_32() {
    let reg = 0;
    let libs = vec![Bytes::copy_from_slice(&[
        Opcode::LOD as u8,
        reg,
        0x0F,
        0xFF,
        0xFF,
        0xFF,
        Opcode::PSH as u8,
        reg,
        Opcode::PSH as u8,
        reg,
        Opcode::LOD as u8,
        reg,
        0,
        0,
        0,
        0,
        Opcode::POP as u8,
        reg,
        Opcode::POP as u8,
        reg + 1,
        0,
    ])];
    let mut stack = ScratchStack::new();
    let mut test_vm = VMScript::new();
    assert!(test_vm.run(&libs, &mut stack).is_ok());
    assert_eq!(test_vm.reg32(reg as usize), 0x0FFFFFFF);
    assert_eq!(test_vm.reg32((reg + 1) as usize), 0x0FFFFFFF);
}

#[test]
fn test_lod32() {
    let reg = 0 + 1;
    let test_vm = run_script(&[Opcode::LOD as u8, reg, 0xFF, 0xFF, 0xFF, 0xFF, 0]);
    assert_eq!(test_vm.reg32(1), -1);
}

#[test]
fn test_shr32() {
    let reg = 0 + 1;
    let test_vm = run_script(&[
        Opcode::LOD as u8,
        reg,
        0xFF,
        0xFF,
        0xFF,
        0xFF,
        Opcode::SHR as u8,
        reg,
        3,
        0,
    ]);
    assert_eq!(test_vm.reg32(1), 0xFFFFFFFF >> 3);
}

#[test]
fn test_shl32() {
    let reg = 0 + 1;
    let test_vm = run_script(&[
        Opcode::LOD as u8,
        reg,
        0xFF,
        0xFF,
        0xFF,
        0xFF,
        Opcode::SHL as u8,
        reg,
        3,
        0,
    ]);
    assert_eq!(test_vm.reg32(1), 0xFFFFFFFF << 3);
}

#[test]
fn test_lod64() {
    let reg = (1 << 6) + 1;
    let test_vm = run_script(&[
        Opcode::LOD as u8,
        reg,
        0xFF,
        0xFF,
        0xFF,
        0xFF,
        0xFF,
        0xFF,
        0xFF,
        0xFF,
        0,
    ]);
    assert_eq!(test_vm.reg64(1), -1);
}

#[test]
fn test_shr64() {
    let reg = (1 << 6) + 1;
    let test_vm = run_script(&[
        Opcode::LOD as u8,
        reg,
        0xFF,
        0xFF,
        0xFF,
        0xFF,
        0xFF,
        0xFF,
        0xFF,
        0xFF,
        Opcode::SHR as u8,
        reg,
        3,
        0,
    ]);
    assert_eq!(test_vm.reg64(1), 0xFFFFFFFFFFFFFFFF >> 3);
}

#[test]
fn test_shl64() {
    let reg = (1 << 6) + 1;
    let test_vm = run_script(&[
        Opcode::LOD as u8,
        reg,
        0xFF,
        0xFF,
        0xFF,
        0xFF,
        0xFF,
        0xFF,
        0xFF,
        0xFF,
        Opcode::SHL as u8,
        reg,
        3,
        0,
    ]);
    assert_eq!(test_vm.reg64(1), 0xFFFFFFFFFFFFFFFF << 3);
}

#[test]
fn test_lod128() {
    let reg = (1 << 7) + 1;
    let test_vm = run_script(&[
        Opcode::LOD as u8,
        reg,
        0xFF,
        0xFF,
        0xFF,
        0xFF,
        0xFF,
        0xFF,
        0xFF,
        0xFF,
        0xFF,
        0xFF,
        0xFF,
        0xFF,
        0xFF,
        0xFF,
        0xFF,
        0xFF,
        0,
    ]);
    assert_eq!(test_vm.reg128(1), -1);
}

#[test]
fn test_shr128() {
    let reg = (1 << 7) + 1;
    let test_vm = run_script(&[
        Opcode::LOD as u8,
        reg,
        0xFF,
        0xFF,
        0xFF,
        0xFF,
        0xFF,
        0xFF,
        0xFF,
        0xFF,
        0xFF,
        0xFF,
        0xFF,
        0xFF,
        0xFF,
        0xFF,
        0xFF,
        0xFF,
        Opcode::SHR as u8,
        reg,
        3,
        0,
    ]);
    assert_eq!(test_vm.reg128(1), (-1 as i128) >> 3);
}

#[test]
fn test_shl128() {
    let reg = (1 << 7) + 1;
    let test_vm = run_script(&[
        Opcode::LOD as u8,
        reg,
        0xFF,
        0xFF,
        0xFF,
        0xFF,
        0xFF,
        0xFF,
        0xFF,
        0xFF,
        0xFF,
        0xFF,
        0xFF,
        0xFF,
        0xFF,
        0xFF,
        0xFF,
        0xFF,
        Opcode::SHL as u8,
        reg,
        3,
        0,
    ]);
    assert_eq!(test_vm.reg128(1), (-1 as i128) << 3);
}

#[test]
fn test_add32() {
    let reg1: u8 = 0;
    let reg2: u8 = 0 + 1;
    let test_vm = run_script(&[
        Opcode::LOD as u8,
        reg1,
        0x0,
        0x0,
        0x0,
        0x01,
        Opcode::LOD as u8,
        reg2,
        0,
        0,
        0,
        100,
        Opcode::ADD as u8,
        reg1,
        reg2,
        0,
    ]);
    assert_eq!(test_vm.reg32(reg1 as usize), 1 + 100);
}

#[test]
fn test_sub32() {
    let reg1: u8 = 0;
    let reg2: u8 = 0 + 1;
    let test_vm = run_script(&[
        Opcode::LOD as u8,
        reg1,
        0x0,
        0x0,
        0x0,
        0x01,
        Opcode::LOD as u8,
        reg2,
        0,
        0,
        0,
        100,
        Opcode::SUB as u8,
        reg1,
        reg2,
        0,
    ]);
    assert_eq!(test_vm.reg32(reg1 as usize), 1 - 100);
}

#[test]
fn test_mul32() {
    let reg1: u8 = 0;
    let reg2: u8 = 0 + 1;
    let test_vm = run_script(&[
        Opcode::LOD as u8,
        reg1,
        0x0,
        0x0,
        0x0,
        0x02,
        Opcode::LOD as u8,
        reg2,
        0,
        0,
        0,
        100,
        Opcode::MUL as u8,
        reg1,
        reg2,
        0,
    ]);
    assert_eq!(test_vm.reg32(reg1 as usize), 2 * 100);
}

#[test]
fn test_div32() {
    let reg1: u8 = 0;
    let reg2: u8 = 0 + 1;
    let test_vm = run_script(&[
        Opcode::LOD as u8,
        reg1,
        0x0,
        0x0,
        0x0,
        100,
        Opcode::LOD as u8,
        reg2,
        0,
        0,
        0,
        3,
        Opcode::DIV as u8,
        reg1,
        reg2,
        0,
    ]);
    assert_eq!(test_vm.reg32(reg1 as usize), 100 / 3);
    assert_eq!(test_vm.rem32(), 100 % 3);
}

#[test]
fn test_mod32() {
    let reg1: u8 = 0;
    let reg2: u8 = 0 + 1;
    let test_vm = run_script(&[
        Opcode::LOD as u8,
        reg1,
        0x0,
        0x0,
        0x0,
        100,
        Opcode::LOD as u8,
        reg2,
        0,
        0,
        0,
        3,
        Opcode::MOD as u8,
        reg1,
        reg2,
        0,
    ]);
    assert_eq!(test_vm.reg32(reg1 as usize), 100 % 3);
}

#[test]
fn test_and32() {
    let reg1: u8 = 0;
    let reg2: u8 = 0 + 1;
    let test_vm = run_script(&[
        Opcode::LOD as u8,
        reg1,
        0x0,
        0x0,
        0x0,
        100,
        Opcode::LOD as u8,
        reg2,
        0,
        0,
        0,
        3,
        Opcode::AND as u8,
        reg1,
        reg2,
        0,
    ]);
    assert_eq!(test_vm.reg32(reg1 as usize), 100 & 3);
}

#[test]
fn test_or32() {
    let reg1: u8 = 0;
    let reg2: u8 = 0 + 1;
    let test_vm = run_script(&[
        Opcode::LOD as u8,
        reg1,
        0x0,
        0x0,
        0x0,
        100,
        Opcode::LOD as u8,
        reg2,
        0,
        0,
        0,
        3,
        Opcode::OR as u8,
        reg1,
        reg2,
        0,
    ]);
    assert_eq!(test_vm.reg32(reg1 as usize), 100 | 3);
}

#[test]
fn test_xor32() {
    let reg1: u8 = 0;
    let reg2: u8 = 0 + 1;
    let test_vm = run_script(&[
        Opcode::LOD as u8,
        reg1,
        0x0,
        0x0,
        0x0,
        100,
        Opcode::LOD as u8,
        reg2,
        0,
        0,
        0,
        3,
        Opcode::XOR as u8,
        reg1,
        reg2,
        0,
    ]);
    assert_eq!(test_vm.reg32(reg1 as usize), 100 ^ 3);
}

#[test]
fn test_not32() {
    let reg1: u8 = 0;
    let test_vm = run_script(&[
        Opcode::LOD as u8,
        reg1,
        0x0,
        0x0,
        0x0,
        100,
        Opcode::NOT as u8,
        reg1,
        0,
    ]);
    assert_eq!(test_vm.reg32(reg1 as usize), !100);
}

#[test]
fn test_many32() {
    let reg1: u8 = 0;
    let reg2: u8 = 0 + 1;
    let test_vm = run_script(&[
        Opcode::LOD as u8,
        reg1,
        0x0,
        0x0,
        0x0,
        100,
        Opcode::LOD as u8,
        reg2,
        0,
        0,
        0,
        3,
        Opcode::DIV as u8,
        reg1,
        reg2,
        Opcode::MUL as u8,
        reg1,
        reg2,
        Opcode::SUB as u8,
        reg1,
        reg2,
        0,
    ]);
    assert_eq!(test_vm.reg32(reg1 as usize), (100 / 3) * 3 - 3);
}

#[test]
fn test_add64() {
    let reg1: u8 = (1 << 6);
    let reg2: u8 = (1 << 6) + 1;
    let test_vm = run_script(&[
        Opcode::LOD as u8,
        reg1,
        0,
        0,
        0,
        0,
        0,
        0,
        0,
        1,
        Opcode::LOD as u8,
        reg2,
        0,
        0,
        0,
        0,
        0,
        0,
        0,
        100,
        Opcode::ADD as u8,
        reg1,
        reg2,
        0,
    ]);
    assert_eq!(test_vm.reg64((reg1 & 0x3F) as usize), 1 + 100);
}

#[test]
fn test_sub64() {
    let reg1: u8 = (1 << 6);
    let reg2: u8 = (1 << 6) + 1;
    let test_vm = run_script(&[
        Opcode::LOD as u8,
        reg1,
        0,
        0,
        0,
        0,
        0,
        0,
        0,
        1,
        Opcode::LOD as u8,
        reg2,
        0,
        0,
        0,
        0,
        0,
        0,
        0,
        100,
        Opcode::SUB as u8,
        reg1,
        reg2,
        0,
    ]);
    assert_eq!(test_vm.reg64(0), 1 - 100);
}

#[test]
fn test_mul64() {
    let reg1: u8 = (1 << 6);
    let reg2: u8 = (1 << 6) + 1;
    let test_vm = run_script(&[
        Opcode::LOD as u8,
        reg1,
        0,
        0,
        0,
        0,
        0,
        0,
        0,
        2,
        Opcode::LOD as u8,
        reg2,
        0,
        0,
        0,
        0,
        0,
        0,
        0,
        100,
        Opcode::MUL as u8,
        reg1,
        reg2,
        0,
    ]);
    assert_eq!(test_vm.reg64((reg1 & 0x3F) as usize), 2 * 100);
}

#[test]
fn test_div64() {
    let reg1: u8 = (1 << 6);
    let reg2: u8 = (1 << 6) + 1;
    let val1 = 100;
    let val2 = 3;
    let test_vm = run_script(&[
        Opcode::LOD as u8,
        reg1,
        0,
        0,
        0,
        0,
        0,
        0,
        0,
        val1 as u8,
        Opcode::LOD as u8,
        reg2,
        0,
        0,
        0,
        0,
        0,
        0,
        0,
        val2 as u8,
        Opcode::DIV as u8,
        reg1,
        reg2,
        0,
    ]);
    assert_eq!(test_vm.reg64((reg1 & 0x3F) as usize), 100 / 3);
    assert_eq!(test_vm.rem64(), 100 % 3);
}

#[test]
fn test_mod64() {
    let reg1: u8 = (1 << 6);
    let reg2: u8 = (1 << 6) + 1;
    let val1 = 100;
    let val2 = 3;
    let test_vm = run_script(&[
        Opcode::LOD as u8,
        reg1,
        0,
        0,
        0,
        0,
        0,
        0,
        0,
        val1 as u8,
        Opcode::LOD as u8,
        reg2,
        0,
        0,
        0,
        0,
        0,
        0,
        0,
        val2 as u8,
        Opcode::MOD as u8,
        reg1,
        reg2,
        0,
    ]);
    assert_eq!(test_vm.reg64((reg1 & 0x3F) as usize), 100 % 3);
}

#[test]
fn test_add128() {
    let reg1: u8 = (1 << 7);
    let reg2: u8 = (1 << 7) + 1;
    let test_vm = run_script(&[
        Opcode::LOD as u8,
        reg1,
        0,
        0,
        0,
        0,
        0,
        0,
        0,
        0,
        0,
        0,
        0,
        0,
        0,
        0,
        0,
        1,
        Opcode::LOD as u8,
        reg2,
        0,
        0,
        0,
        0,
        0,
        0,
        0,
        0,
        0,
        0,
        0,
        0,
        0,
        0,
        0,
        100,
        Opcode::ADD as u8,
        reg1,
        reg2,
        0,
    ]);
    assert_eq!(test_vm.reg128(0), 1 + 100);
}

#[test]
fn test_sub128() {
    let reg1: u8 = (1 << 7);
    let reg2: u8 = (1 << 7) + 1;
    let test_vm = run_script(&[
        Opcode::LOD as u8,
        reg1,
        0,
        0,
        0,
        0,
        0,
        0,
        0,
        0,
        0,
        0,
        0,
        0,
        0,
        0,
        0,
        1,
        Opcode::LOD as u8,
        reg2,
        0,
        0,
        0,
        0,
        0,
        0,
        0,
        0,
        0,
        0,
        0,
        0,
        0,
        0,
        0,
        100,
        Opcode::SUB as u8,
        reg1,
        reg2,
        0,
    ]);
    assert_eq!(test_vm.reg128(0), 1 - 100);
}

#[test]
fn test_mul128() {
    let reg1: u8 = (1 << 7);
    let reg2: u8 = (1 << 7) + 1;
    let test_vm = run_script(&[
        Opcode::LOD as u8,
        reg1,
        0,
        0,
        0,
        0,
        0,
        0,
        0,
        0,
        0,
        0,
        0,
        0,
        0,
        0,
        0,
        2,
        Opcode::LOD as u8,
        reg2,
        0,
        0,
        0,
        0,
        0,
        0,
        0,
        0,
        0,
        0,
        0,
        0,
        0,
        0,
        0,
        100,
        Opcode::MUL as u8,
        reg1,
        reg2,
        0,
    ]);
    assert_eq!(test_vm.reg128(0), 2 * 100);
}

#[test]
fn test_div128() {
    let reg1: u8 = (1 << 7);
    let reg2: u8 = (1 << 7) + 1;
    let test_vm = run_script(&[
        Opcode::LOD as u8,
        reg1,
        0,
        0,
        0,
        0,
        0,
        0,
        0,
        0,
        0,
        0,
        0,
        0,
        0,
        0,
        0,
        100,
        Opcode::LOD as u8,
        reg2,
        0,
        0,
        0,
        0,
        0,
        0,
        0,
        0,
        0,
        0,
        0,
        0,
        0,
        0,
        0,
        3,
        Opcode::DIV as u8,
        reg1,
        reg2,
        0,
    ]);
    assert_eq!(test_vm.reg128(0), 100 / 3);
    assert_eq!(test_vm.rem128(), 100 % 3);
}

#[test]
fn test_mod128() {
    let reg1: u8 = (1 << 7);
    let reg2: u8 = (1 << 7) + 1;
    let test_vm = run_script(&[
        Opcode::LOD as u8,
        reg1,
        0,
        0,
        0,
        0,
        0,
        0,
        0,
        0,
        0,
        0,
        0,
        0,
        0,
        0,
        0,
        100,
        Opcode::LOD as u8,
        reg2,
        0,
        0,
        0,
        0,
        0,
        0,
        0,
        0,
        0,
        0,
        0,
        0,
        0,
        0,
        0,
        3,
        Opcode::MOD as u8,
        reg1,
        reg2,
        0,
    ]);
    assert_eq!(test_vm.reg128(0), 100 % 3);
}

#[test]
fn test_vm_cal() {
    let reg = 0;
    let script = vec![
        // Call the next segment in the list (relative offset 0).
        Bytes::copy_from_slice(&[Opcode::CAL as u8, 0x0, 0]),
        // Load 0xFFFFFFFF into reg0, push reg0, call the segment at offset 0.
        Bytes::copy_from_slice(&[
            Opcode::LOD as u8,
            reg,
            0xFF,
            0xFF,
            0xFF,
            0xFF,
            Opcode::PSH as u8,
            reg,
            Opcode::CAL as u8,
            0x0,
            0,
        ]),
        // Call the segment at offset 0.
        Bytes::copy_from_slice(&[Opcode::CAL as u8, 0x0, 0]),
        // Load 0xFF into reg0, push reg0.
        Bytes::copy_from_slice(&[
            Opcode::LOD as u8,
            reg,
            0x0,
            0x0,
            0x0,
            0xFF,
            Opcode::PSH as u8,
            reg,
            0,
        ]),
    ];
    let mut test_vm = VM::new(script);
    assert_eq!(test_vm.run(), true);
    // Verify memory is what it should be.
    assert_eq!(
        test_vm.heap.contents(),
        vec![0xFF, 0xFF, 0xFF, 0xFF, 0xFF, 0x0, 0x0, 0x0]
    );
}
