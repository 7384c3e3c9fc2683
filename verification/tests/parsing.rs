use regvm::assembler::AsmInstruction;
use regvm::assembler::Token;
use regvm::instruction::Opcode;
use regvm::parser::i32_arg;
use regvm::parser::instruction_one;
use regvm::parser::register;
use regvm::parser::script;

#[test]
fn test_parse_i32_arg() {
    // Test a valid integer operand
    let input = "i3210";
    let result = i32_arg(input);
    assert_eq!(result.is_some(), true);
    let (used, value) = result.unwrap();
    assert_eq!(used, input.len());
    assert_eq!(value, Token::Number { value: 10 });

    // Test an invalid one (missing the tag)
    let result = i32_arg("10");
    assert_eq!(result.is_some(), false);
}

#[test]
fn test_parse_register() {
    let result = register("r0");
    assert_eq!(result.is_some(), true);
    let result = register("0");
    assert_eq!(result.is_some(), false);
    let result = register("ra");
    assert_eq!(result.is_some(), false);
}

#[test]
fn test_parse_instruction_form_one() {
    let input = "ld r0 i32100\n";
    let result = instruction_one(input);
    assert_eq!(
        result,
        Some((
            input.len(),
            AsmInstruction {
                opcode: Token::Op { code: Opcode::LOD },
                operand1: Some(Token::Reg { reg_num: 0 }),
                operand2: Some(Token::Number { value: 100 }),
                operand3: None
            }
        ))
    );
}

#[test]
fn test_parse_program() {
    let input = "ld r0 i32100\n";
    let result = script(input);
    assert_eq!(result.is_some(), true);
    let (used, p) = result.unwrap();
    assert_eq!(used, input.len());
    assert_eq!(1, p.instructions.len());
}

#[test]
fn test_parse_register_rejects_out_of_range_number() {
    // A register number must fit one byte.
    assert_eq!(register("r256").is_some(), false);
    assert_eq!(register("r255").is_some(), true);
}

#[test]
fn test_parsed_program_assembles_and_runs() {
    // Parse two instructions, assemble them, and run the result: the
    // interpreter ends with exactly the parsed immediates in its registers.
    let text = "ld r0 i32100\nld r1 i327\n";
    let (used, p) = script(text).unwrap();
    assert_eq!(used, text.len());
    assert_eq!(p.instructions.len(), 2);
    let mut program: Vec<u8> = Vec::new();
    for inst in p.instructions {
        program.extend(inst.to_bytes());
    }
    program.push(Opcode::HLT as u8);
    let libs = vec![bytes::Bytes::copy_from_slice(&program)];
    let mut stack = regvm::stack::ScratchStack::new();
    let mut vm = regvm::vm_script::VMScript::new();
    assert!(vm.run(&libs, &mut stack).is_ok());
    assert_eq!(vm.reg32(0), 100);
    assert_eq!(vm.reg32(1), 7);
}
