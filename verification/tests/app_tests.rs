use afg::machine::app::{App, AppStatus};
use afg::machine::blocks::{
    stack_notes, AppKey, InstructionsBlock, MachineOutputBlock, MachineStatusBlock, RegisterBlock,
    StackBlock,
};
use afg::machine::enums::{OpCodes, OperandType};
use afg::machine::parser::parse;
use afg::machine::{Instruction, VirtualMachine};

fn machine_for(text: &str) -> VirtualMachine {
    VirtualMachine::new().with_program(parse(text).expect("the program parses"))
}

#[test]
fn test_new_app() {
    let app = App::new("debugger", machine_for("halt"));
    assert_eq!(app.title, "debugger");
    assert!(!app.should_quit);
    assert_eq!(app.status.to_string(), "Ready");
    assert_eq!(app.selected_block, 0);
    assert!(app.breakpoints.is_empty());
}

#[test]
fn test_next_block_cycles() {
    let mut app = App::new("t", machine_for("halt"));
    let mut seen = vec![];
    for _ in 0..6 {
        app.on_next_block();
        seen.push(app.selected_block);
    }
    assert_eq!(seen, vec![1, 2, 3, 4, 0, 1]);
}

#[test]
fn test_continue_toggles_only_when_stepping_or_running() {
    let mut app = App::new("t", machine_for("halt"));
    app.on_continue();
    assert_eq!(app.status.to_string(), "Ready");
    app.status = AppStatus::Ticking;
    app.on_continue();
    assert_eq!(app.status.to_string(), "Continuing");
    app.on_continue();
    assert_eq!(app.status.to_string(), "Ticking");
}

#[test]
fn test_tick_runs_one_step_and_reports_errors() {
    let mut app = App::new("t", machine_for("mov 'GPA #4\npop"));
    app.on_tick();
    assert_eq!(app.machine.get_register(0), 4);
    assert_eq!(app.status.to_string(), "Ready");
    app.on_tick();
    assert_eq!(app.status.to_string(), "Error: Stack underflow");
}

#[test]
fn test_completed_machine_is_not_ticked() {
    let mut app = App::new("t", machine_for("halt"));
    app.on_tick();
    assert!(app.machine.has_completed());
    app.on_tick();
    assert_eq!(app.status.to_string(), "Ready");
}

#[test]
fn test_update_stops_at_breakpoints() {
    let mut app = App::new("t", machine_for("mov 'GPA #1\nmov 'GPA #2\nmov 'GPA #3"));
    app.on_key(AppKey::Down);
    app.on_key(AppKey::Char('b'));
    assert_eq!(app.breakpoints, vec![1]);
    app.status = AppStatus::Continuing;
    app.update();
    assert_eq!(app.machine.get_cip(), 1);
    app.update();
    assert_eq!(app.machine.get_cip(), 1);
    assert_eq!(app.status.to_string(), "Ticking");
    app.update();
    assert_eq!(app.machine.get_cip(), 1);
}

#[test]
fn test_breakpoint_key_toggles() {
    let mut app = App::new("t", machine_for("halt"));
    app.on_key(AppKey::Char('b'));
    assert_eq!(app.breakpoints, vec![0]);
    assert!(app.blocks.0.has_breakpoint(0));
    app.on_key(AppKey::Char('b'));
    assert!(app.breakpoints.is_empty());
    assert!(!app.blocks.0.has_breakpoint(0));
}

#[test]
fn test_quit() {
    let mut app = App::new("t", machine_for("halt"));
    app.on_quit();
    assert!(app.should_quit);
}

#[test]
fn test_instructions_block_keys() {
    let mut b = InstructionsBlock::new();
    b.on_key(AppKey::Down);
    b.on_key(AppKey::PageDown);
    assert_eq!(b.cursor_position(), 11);
    b.on_key(AppKey::Up);
    assert_eq!(b.cursor_position(), 10);
    assert_eq!(b.get_selected_cip(), 10);
    b.on_key(AppKey::Char('f'));
    assert!(b.follow_cip());
    b.on_key(AppKey::PageUp);
    assert_eq!(b.cursor_position(), 10);
}

#[test]
fn test_jump_index_and_marks() {
    let mut b = InstructionsBlock::new();
    b.on_key(AppKey::Down);
    let shown = vec![
        (0usize, Instruction { opcode: OpCodes::MOV, operand_1: OperandType::Register { idx: 0 }, operand_2: OperandType::Literal { value: 1 } }),
        (1usize, Instruction { opcode: OpCodes::JMP, operand_1: OperandType::Literal { value: 3 }, operand_2: OperandType::NoOperand }),
    ];
    let target = b.get_jump_index(&shown);
    assert_eq!(target, Some(4));
    assert_eq!(b.display_jump(1, target), "┌");
    assert_eq!(b.display_jump(2, target), "|");
    assert_eq!(b.display_jump(4, target), "└");
    assert_eq!(b.display_jump(5, target), " ");
    assert_eq!(b.display_jump(5, None), " ");
}

#[test]
fn test_scroll_follows_cip() {
    let mut vm = machine_for("push #1\npush #2\npush #3\npush #4");
    vm.tick().unwrap();
    vm.tick().unwrap();
    let mut b = InstructionsBlock::new();
    b.on_key(AppKey::Char('f'));
    let shown = b.scroll(&vm, 10);
    assert_eq!(shown.len(), 4);
    assert_eq!(b.cursor_position(), 2);
    assert_eq!(b.offset(), 0);
}

#[test]
fn test_scroll_keeps_cursor_on_shown_lines() {
    let vm = machine_for("push #1\npush #2");
    let mut b = InstructionsBlock::new();
    for _ in 0..5 {
        b.on_key(AppKey::Down);
    }
    let shown = b.scroll(&vm, 20);
    assert_eq!(shown.len(), 2);
    assert_eq!(b.cursor_position(), 1);
}

#[test]
fn test_stack_block_keys() {
    let mut s = StackBlock::new();
    s.on_key(AppKey::Up);
    assert_eq!(s.offset(), 0);
    s.on_key(AppKey::Down);
    s.on_key(AppKey::Down);
    s.on_key(AppKey::Up);
    assert_eq!(s.offset(), 1);
    assert_eq!(s.most_recently_modified(), None);
}

#[test]
fn test_output_block_keeps_last_lines() {
    let mut vm = machine_for("mov 'GPA #1\nprint 'GPA\nmov 'GPA #2\nprint 'GPA\nmov 'GPA #3\nprint 'GPA");
    let mut out = MachineOutputBlock::new();
    for _ in 0..6 {
        vm.tick().unwrap();
        out.record(&vm);
    }
    assert_eq!(out.last_lines(2), vec!["2".to_string(), "3".to_string()]);
    assert_eq!(out.last_lines(10).len(), 3);
}

#[test]
fn test_stack_notes() {
    assert_eq!(stack_notes(256, 256, 250), vec![" < SBP".to_string()]);
    assert_eq!(
        stack_notes(257, 256, 250),
        vec![" <".to_string(), " SBP 01".to_string(), " <= Return pointer".to_string()]
    );
    assert_eq!(stack_notes(253, 256, 250), vec![" <".to_string(), " SBP -3".to_string()]);
    assert_eq!(stack_notes(250, 256, 250), vec![" < TSP".to_string()]);
    let _ = RegisterBlock::new();
    let _ = MachineStatusBlock::new();
}
