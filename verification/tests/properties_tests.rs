use afg::allocation::allocate;
use afg::ast::function::Function;
use afg::ast::table::FunctionTable;
use afg::ast::AST;
use afg::machine::enums::OpCodes;
use afg::machine::enums::OperandType as MachineOperand;
use afg::machine::Instruction;
use afg::lexer::parse_source;
use afg::machine::parser::parse;
use afg::pasm::program::PASMFunction;
use afg::pasm::translation::{create_temp_variable_name, inst_to_pasm};
use afg::machine::VirtualMachine;
use afg::pasm::{OperandType, PASMInstruction};
use afg::token::{lex, TokenType};

#[test]
fn test_comment_lines_do_not_count() {
    let plain = parse("mov 'GPA #1\nmov 'GPB #2").ok().expect("parses");
    let commented = parse("; start\nmov 'GPA #1\n; between\n\nmov 'GPB #2").ok().expect("parses");
    assert_eq!(plain, commented);
    let e = parse("; start\nmov 'XYZ #1").err().expect("refused");
    assert_eq!(e.line, 1);
    let e = parse("mov 'XYZ #1").err().expect("refused");
    assert_eq!(e.line, 0);
}

#[test]
fn test_tokens_come_in_order() {
    let r = parse_source("fn main() {\n  set x = 10;\n}");
    assert!(r.is_ok());
    for pair in r.tokens.windows(2) {
        assert!(pair[0].location.end <= pair[1].location.start);
    }
}

#[test]
fn test_lexed_tokens_hold_no_line_return() {
    let tokens = lex("set x = 1;\nset y = 2;\n\n");
    assert!(tokens.iter().all(|t| !t.is(TokenType::LRTRN)));
}

#[test]
fn test_successive_temporaries_differ() {
    let mut counter = 9;
    let a = create_temp_variable_name("op", &mut counter);
    let b = create_temp_variable_name("op", &mut counter);
    assert_eq!(a, "temp_op_9");
    assert_eq!(b, "temp_op_10");
    let mut top = usize::MAX;
    let c = create_temp_variable_name("x", &mut top);
    let d = create_temp_variable_name("x", &mut top);
    assert_ne!(c, d);
    assert_eq!(d, "temp_x_0");
}

#[test]
fn test_table_lookup_after_insert() {
    let mut table = FunctionTable::new();
    table.insert(Function::new("main".to_string()));
    let mut helper = Function::new("helper".to_string());
    helper.parameters.push("a".to_string());
    table.insert(helper);
    assert_eq!(table.get("helper").unwrap().parameters, vec!["a".to_string()]);
    assert_eq!(table.get("main").unwrap().name, "main");
    let mut again = Function::new("helper".to_string());
    again.parameters.push("b".to_string());
    table.insert(again);
    assert_eq!(table.len(), 2);
    assert_eq!(table.get("helper").unwrap().parameters, vec!["b".to_string()]);
    assert!(table.get("other").is_none());
}

#[test]
fn test_allocation_keeps_labels_and_slots() {
    let id = |n: &str| OperandType::Identifier { name: n.to_string() };
    let f = PASMFunction {
        name: "f".to_string(),
        parameters: vec!["p".to_string()],
        instructions: vec![
            PASMInstruction::new_label("function_f_label".to_string()),
            PASMInstruction::new("mov".to_string(), vec![id("x"), id("p")]),
            PASMInstruction::new_label("loop".to_string()),
            PASMInstruction::new("push".to_string(), vec![id("x")]),
        ],
    };
    let out = allocate(&f).ok().expect("allocated");
    let labels: Vec<String> = out
        .iter()
        .filter(|i| i.is_label)
        .map(|i| i.opcode.clone())
        .collect();
    assert_eq!(labels, vec!["function_f_label".to_string(), "loop".to_string()]);
    let texts: Vec<String> = out.iter().map(|i| i.to_string()).collect();
    let expected = vec![
        "function_f_label:",
        "; mov @x @p",
        "mov ['SBP - 1] ['SBP + 2]",
        "loop:",
        "; push @x",
        "mov 'GPA ['SBP - 1]",
        "push 'GPA",
    ];
    assert_eq!(texts, expected);
}

#[test]
fn test_registers_and_memory_pass_through_allocation() {
    let id = |n: &str| OperandType::Identifier { name: n.to_string() };
    let f = PASMFunction {
        name: "f".to_string(),
        parameters: vec![],
        instructions: vec![
            PASMInstruction::new_label("f".to_string()),
            PASMInstruction::new("push".to_string(), vec![id("'SBP")]),
            PASMInstruction::new("mov".to_string(), vec![id("'GPA"), id("$Velocity")]),
        ],
    };
    let out = allocate(&f).ok().expect("allocated");
    let texts: Vec<String> = out.iter().map(|i| i.to_string()).collect();
    assert_eq!(
        texts,
        vec!["f:", "; push 'SBP", "push 'SBP", "; mov 'GPA $Velocity", "mov 'GPA $Velocity"]
    );
}

#[test]
fn test_source_parse_is_token_parse() {
    for code in [
        "fn main() { set x = 1; print x; }",
        "fn main() { set x = 1 ? }",
        "fn f(a) { return a; }\nfn main() { set y = 2; }",
        "set x = 1;",
    ] {
        let direct = AST::parse(code);
        let tokens = parse_source(code).tokens;
        let through_tokens = AST::parse_tokens(tokens);
        assert_eq!(format!("{:?}", direct), format!("{:?}", through_tokens));
    }
}

#[test]
fn test_no_tokens_no_functions() {
    let ast = AST::parse_tokens(vec![]).ok().expect("an empty stream parses");
    assert_eq!(ast.functions.len(), 0);
}

#[test]
fn test_printed_instructions_parse_back() {
    let program = vec![
        Instruction {
            opcode: OpCodes::MOV,
            operand_1: MachineOperand::StackValue { base_register: 2, addition: false, offset: 3 },
            operand_2: MachineOperand::Literal { value: -7 },
        },
        Instruction {
            opcode: OpCodes::ADD,
            operand_1: MachineOperand::Register { idx: 4 },
            operand_2: MachineOperand::StackValue { base_register: 3, addition: true, offset: 12 },
        },
        Instruction {
            opcode: OpCodes::CMP,
            operand_1: MachineOperand::Register { idx: 0 },
            operand_2: MachineOperand::Literal { value: i32::MIN },
        },
    ];
    let text: Vec<String> = program.iter().map(|i| i.to_string()).collect();
    assert_eq!(text[0], "MOV ['SBP - 3] #-7");
    let parsed = parse(&text.join("\n")).ok().expect("the printed program parses");
    assert_eq!(parsed, program);
}

/// Runs the test that the compiler emits for `if a op b` on the machine, each
/// jump sent to a marker placed after the code; tells whether it left.
fn comparison_leaves(a: i32, op: &str, b: i32) -> bool {
    let code = format!("fn main() {{ if {} {} {} {{ set z = 1; }} }}", a, op, b);
    let ast = AST::parse(&code).ok().expect("parses");
    let node = &ast.functions.get("main").expect("main").content[0];
    let mut counter = 0;
    let out = inst_to_pasm(node, &mut counter).ok().expect("translates");
    let test: Vec<&PASMInstruction> = out
        .iter()
        .take_while(|i| {
            let t = i.to_string();
            i.opcode == "cmp" || i.opcode.starts_with('j') || t.starts_with("mov 'GP")
        })
        .collect();
    assert!(test.iter().any(|i| i.opcode == "cmp"));
    let target = test.len() + 2;
    let mut lines: Vec<String> = Vec::new();
    for (k, i) in test.iter().enumerate() {
        if i.opcode.starts_with('j') {
            lines.push(format!("{} #{}", i.opcode, target - k));
        } else {
            lines.push(i.to_string());
        }
    }
    lines.push("mov 'FRV #1".to_string());
    lines.push("halt".to_string());
    lines.push("mov 'FRV #2".to_string());
    let program = parse(&lines.join("\n")).ok().expect("the machine text parses");
    let mut vm = VirtualMachine::new().with_program(program);
    let mut steps = 0;
    while !vm.has_completed() && steps < 20 {
        assert!(!vm.would_fault());
        vm.tick().expect("the step succeeds");
        steps += 1;
    }
    vm.get_register(4) == 2
}

#[test]
fn test_comparison_code_leaves_when_false() {
    for (a, b) in [(3, 5), (5, 3), (4, 4), (2, 7), (0, 0)] {
        assert_eq!(comparison_leaves(a, "==", b), !(a == b));
        assert_eq!(comparison_leaves(a, "!=", b), !(a != b));
        assert_eq!(comparison_leaves(a, ">=", b), !(a >= b));
        assert_eq!(comparison_leaves(a, ">", b), !(a > b));
        assert_eq!(comparison_leaves(a, "<=", b), !(a <= b));
        assert_eq!(comparison_leaves(a, "<", b), !(a < b));
    }
}

#[test]
fn test_printed_integers_parse_back() {
    for v in [0, 7, -7, 10, -100, 2147483647, -2147483648] {
        let text: Vec<char> = afg::text::i32_to_string(v).chars().collect();
        assert_eq!(afg::text::parse_i32(&text), Ok(v));
    }
}
