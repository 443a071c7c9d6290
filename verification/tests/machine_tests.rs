use afg::machine::enums::{MemoryMappedProperties, OpCodes, OperandType, Registers};
use afg::machine::parser::parse;
use afg::machine::{Instruction, VirtualMachine};

#[test]
fn test_parser() {
    let text = "; Test program, used to validate the parser functionality
mov 'GPA $Velocity
mov 'GPB $Moment
store 'GPA #100
store 'GPB #-100";

    let instructions = parse(text);

    let expected = vec![
        Instruction {
            opcode: OpCodes::MOV,
            operand_1: OperandType::Register {
                idx: Registers::GPA as usize,
            },
            operand_2: OperandType::Literal {
                value: MemoryMappedProperties::Velocity as i32,
            },
        },
        Instruction {
            opcode: OpCodes::MOV,
            operand_1: OperandType::Register {
                idx: Registers::GPB as usize,
            },
            operand_2: OperandType::Literal {
                value: MemoryMappedProperties::Moment as i32,
            },
        },
        Instruction {
            opcode: OpCodes::STORE,
            operand_1: OperandType::Register {
                idx: Registers::GPA as usize,
            },
            operand_2: OperandType::Literal { value: 100 },
        },
        Instruction {
            opcode: OpCodes::STORE,
            operand_1: OperandType::Register {
                idx: Registers::GPB as usize,
            },
            operand_2: OperandType::Literal { value: -100 },
        },
    ];

    assert!(
        instructions.is_ok(),
        "Instructions parsing failed: {}",
        instructions.err().unwrap().to_string()
    );

    let instructions = instructions.unwrap();
    assert_eq!(
        instructions.len(),
        expected.len(),
        "Instruction set does not have the correct size"
    );

    for (i1, i2) in instructions.iter().zip(expected.iter()) {
        assert_eq!(i1, i2);
    }
}

fn machine_for(text: &str) -> VirtualMachine {
    let program = parse(text).expect("the program parses");
    VirtualMachine::new().with_program(program)
}

fn run(vm: &mut VirtualMachine, steps: usize) -> Vec<String> {
    let mut printed = Vec::new();
    for _ in 0..steps {
        assert!(!vm.would_fault());
        vm.tick().expect("the step succeeds");
        if let Some(o) = vm.get_current_output() {
            printed.push(o);
        }
    }
    printed
}

#[test]
fn test_new_machine_state() {
    let vm = VirtualMachine::new();
    assert_eq!(vm.get_status(), "Empty");
    assert_eq!(vm.get_register(3), 256);
    assert_eq!(vm.get_register(0), 0);
    assert_eq!(vm.get_register(6), 0);
    assert_eq!(vm.get_cip(), 0);
    assert!(vm.get_current_instruction().is_none());
    assert!(vm.get_instruction_slice(0, 5).is_empty());
    let names: Vec<String> = vm.get_registers().into_iter().map(|r| r.0).collect();
    assert_eq!(names, vec!["GPA", "GPB", "SBP", "TSP", "FRV", "CIP"]);
}

#[test]
fn test_empty_machine_cannot_fetch() {
    let mut vm = VirtualMachine::new();
    let r = vm.tick();
    assert_eq!(r, Err("Unable to fetch instruction at index 0".to_string()));
}

#[test]
fn test_arithmetic_and_print() {
    let mut vm = machine_for("mov 'GPA #7\nadd 'GPA #5\nmul 'GPA #3\nsub 'GPA #6\ndiv 'GPA #4\nprint 'GPA\nmod 'GPA #4\nprint 'GPA");
    assert_eq!(vm.get_status(), "Ready");
    let printed = run(&mut vm, 8);
    assert_eq!(printed, vec!["7".to_string(), "3".to_string()]);
    assert!(vm.has_completed());
    assert_eq!(vm.get_status(), "Complete");
    assert_eq!(vm.tick(), Err("Machine is dead".to_string()));
}

#[test]
fn test_division_rounds_toward_zero() {
    let mut vm = machine_for("mov 'GPA #-7\ndiv 'GPA #2\nmov 'GPB #-7\nmod 'GPB #2");
    run(&mut vm, 4);
    assert_eq!(vm.get_register(0), -3);
    assert_eq!(vm.get_register(1), -1);
}

#[test]
fn test_division_by_zero_faults() {
    let mut vm = machine_for("mov 'GPA #1\ndiv 'GPA #0");
    run(&mut vm, 1);
    assert!(vm.would_fault());
}

#[test]
fn test_overflow_faults() {
    let mut vm = machine_for("mov 'GPA #2147483647\nadd 'GPA #1");
    run(&mut vm, 1);
    assert!(vm.would_fault());
}

#[test]
fn test_push_pop_and_stack_frame() {
    let mut vm = machine_for("mov 'SBP #256\npush #7\npush #9\npop 'GPB");
    run(&mut vm, 3);
    assert_eq!(vm.get_register(3), 254);
    assert_eq!(vm.get_stack_frame(), "[254] = 9\n[255] = 7\n");
    assert_eq!(vm.get_stack_slice(0, 2), vec![(255, 7), (254, 9)]);
    run(&mut vm, 1);
    assert_eq!(vm.get_register(1), 9);
    assert_eq!(vm.get_register(3), 255);
}

#[test]
fn test_memory_store_and_load() {
    let mut vm = machine_for("store #10 #42\nload 'GPA #10");
    run(&mut vm, 2);
    assert_eq!(vm.get_register(0), 42);
}

#[test]
fn test_compare_sets_flags_for_next_step() {
    let mut vm = machine_for("mov 'GPA #3\ncmp 'GPA #3\njz #2\nmov 'GPB #1\nmov 'GPA #0");
    run(&mut vm, 2);
    let flags = vm.get_flags();
    assert_eq!(flags[0], ("ZeroFlag".to_string(), "t".to_string(), "f".to_string()));
    assert_eq!(flags[1].1, "f");
    run(&mut vm, 2);
    assert_eq!(vm.get_register(1), 0);
    assert!(vm.has_completed());
}

#[test]
fn test_call_and_return() {
    let mut vm = machine_for("push #0\ncall #2\nhalt\nmov 'GPA #5\nret");
    run(&mut vm, 5);
    assert_eq!(vm.get_register(0), 5);
    assert!(vm.has_completed());
}

#[test]
fn test_invalid_instruction_kills_machine() {
    let program = vec![Instruction {
        opcode: OpCodes::ADD,
        operand_1: OperandType::NoOperand,
        operand_2: OperandType::NoOperand,
    }];
    let mut vm = VirtualMachine::new().with_program(program);
    let r = vm.tick();
    assert_eq!(
        r,
        Err("FATAL: Missing first operand for add instruction (CIP: 0)".to_string())
    );
    assert_eq!(vm.get_status(), "Dead");
    assert_eq!(vm.tick(), Err("Machine is dead".to_string()));
}

#[test]
fn test_pop_empty_stack_underflows() {
    let mut vm = machine_for("pop");
    assert_eq!(vm.tick(), Err("Stack underflow".to_string()));
}

#[test]
fn test_registers_display() {
    let vm = VirtualMachine::new();
    assert_eq!(
        vm.get_registers_display(),
        "GPA:     0\nGPB:     0\nSBP:     0\nTSP:   256\nFRV:     0\nCIP:     0"
    );
}

#[test]
fn test_instruction_slice() {
    let vm = machine_for("push #1\npush #2\npush #3");
    let slice = vm.get_instruction_slice(1, 5);
    assert_eq!(slice.len(), 2);
    assert_eq!(slice[0].0, 1);
    assert_eq!(slice[1].1.operand_1, OperandType::Literal { value: 3 });
}

#[test]
fn test_parser_reports_line() {
    let r = parse("mov 'GPA #1\nmov 'XYZ #2");
    let e = r.err().expect("an unknown register is refused");
    assert_eq!(e.line, 1);
}

#[test]
fn test_pushed_value_pops_back() {
    let program = vec![
        Instruction {
            opcode: OpCodes::PUSH,
            operand_1: OperandType::Literal { value: 5 },
            operand_2: OperandType::NoOperand,
        },
        Instruction {
            opcode: OpCodes::POP,
            operand_1: OperandType::Register {
                idx: Registers::GPA as usize,
            },
            operand_2: OperandType::NoOperand,
        },
    ];
    let mut vm = VirtualMachine::new().with_program(program);
    assert_eq!(vm.tick(), Ok(()));
    assert_eq!(vm.get_register(Registers::TSP as usize), 255);
    assert_eq!(vm.tick(), Ok(()));
    assert_eq!(vm.get_register(Registers::GPA as usize), 5);
    assert_eq!(vm.get_register(Registers::TSP as usize), 256);
    assert!(vm.has_completed());
}

#[test]
fn test_compare_then_jump_if_negative() {
    let mut vm = machine_for("mov 'GPA #3\ncmp 'GPA #5\njn #3\nmov 'GPB #1\nhalt\nmov 'GPB #2");
    run(&mut vm, 3);
    assert_eq!(vm.get_cip(), 5);
    run(&mut vm, 1);
    assert_eq!(vm.get_register(1), 2);
}

#[test]
fn test_compare_then_jump_if_positive() {
    let mut vm = machine_for("mov 'GPA #3\ncmp 'GPA #1\njp #2\nmov 'GPB #1\nmov 'GPB #2");
    run(&mut vm, 3);
    assert_eq!(vm.get_cip(), 4);
    let mut vm = machine_for("mov 'GPA #3\ncmp 'GPA #3\njp #2\nmov 'GPB #1\nmov 'GPB #2");
    run(&mut vm, 3);
    assert_eq!(vm.get_cip(), 3);
}

#[test]
fn test_compare_then_jump_if_not_zero() {
    let mut vm = machine_for("mov 'GPA #3\ncmp 'GPA #3\njnz #2\nmov 'GPB #1\nmov 'GPB #2");
    run(&mut vm, 3);
    assert_eq!(vm.get_cip(), 3);
    let mut vm = machine_for("mov 'GPA #4\ncmp 'GPA #3\njnz #2\nmov 'GPB #1\nmov 'GPB #2");
    run(&mut vm, 3);
    assert_eq!(vm.get_cip(), 4);
}

#[test]
fn test_unconditional_jump() {
    let mut vm = machine_for("jmp #2\nmov 'GPA #1\nmov 'GPB #1");
    run(&mut vm, 1);
    assert_eq!(vm.get_cip(), 2);
}

#[test]
fn test_return_to_the_end_of_the_program() {
    let mut vm = machine_for("jmp #2\nret\ncall #-1");
    run(&mut vm, 2);
    assert_eq!(vm.get_cip(), 1);
    assert_eq!(vm.get_register(3), 255);
    run(&mut vm, 1);
    assert_eq!(vm.get_register(3), 256);
    assert!(vm.has_completed());
}
