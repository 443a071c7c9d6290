use afg::liveness::{Block, BlockTags};
use afg::pasm::{OperandType, PASMInstruction};
use petgraph::graph::{EdgeIndex, NodeIndex};

fn id(name: &str) -> OperandType {
    OperandType::Identifier { name: name.to_string() }
}

fn lit(value: i32) -> OperandType {
    OperandType::Literal { value }
}

fn ins(op: &str, operands: Vec<OperandType>) -> PASMInstruction {
    PASMInstruction::new(op.to_string(), operands)
}

fn counting_loop() -> Vec<PASMInstruction> {
    vec![
        PASMInstruction::new_label("main".to_string()),
        ins("mov", vec![id("x"), lit(0)]),
        PASMInstruction::new_label("loop_start".to_string()),
        ins("cmp", vec![id("x"), lit(10)]),
        ins("jz", vec![id("loop_exit")]),
        ins("add", vec![id("x"), lit(1)]),
        ins("jmp", vec![id("loop_start")]),
        PASMInstruction::new_label("loop_exit".to_string()),
        ins("push", vec![id("x")]),
    ]
}

#[test]
fn test_block_tags_order() {
    let tags: Vec<u8> = BlockTags::iterator().iter().map(|t| t.bit()).collect();
    assert_eq!(tags, vec![1, 2, 4, 8, 16, 32]);
    assert_eq!(BlockTags::iterator()[3].name(), "IfStart");
}

#[test]
fn test_new_block_text() {
    assert_eq!(Block::new(4).to_string(), "4 - \n");
}

#[test]
fn test_graph_of_a_loop() {
    let g = Block::from_function(&counting_loop()).ok().expect("a graph");
    assert_eq!(g.node_count(), 4);
    let texts: Vec<String> = (0..4)
        .map(|i| g.node_weight(NodeIndex::new(i)).unwrap().to_string())
        .collect();
    assert_eq!(texts[0], "0 - \nmain: ()\nmov @x #0 ()");
    assert_eq!(
        texts[1],
        "2 - LoopStart, IfStart\nloop_start: (x)\ncmp @x #10 (x)\njz @loop_exit ()"
    );
    assert_eq!(texts[2], "5 - LoopEnd\nadd @x #1 (x)\njmp @loop_start ()");
    assert_eq!(texts[3], "7 - IfEnd\nloop_exit: (x)\npush @x (x)");
    let edges: Vec<(usize, usize)> = (0..g.edge_count())
        .map(|i| {
            let (a, b) = g.edge_endpoints(EdgeIndex::new(i)).unwrap();
            (a.index(), b.index())
        })
        .collect();
    assert_eq!(edges, vec![(0, 1), (1, 3), (1, 2), (2, 1)]);
}

#[test]
fn test_first_instruction_must_be_a_label() {
    let f = vec![ins("mov", vec![id("x"), lit(0)])];
    assert_eq!(
        Block::from_function(&f).err(),
        Some("First instruction in a function must be a label".to_string())
    );
}

#[test]
fn test_jump_without_label() {
    let f = vec![
        PASMInstruction::new_label("main".to_string()),
        ins("jmp", vec![lit(3)]),
    ];
    assert_eq!(
        Block::from_function(&f).err(),
        Some("No label found for jump instruction in block 0".to_string())
    );
    let f = vec![
        PASMInstruction::new_label("main".to_string()),
        ins("jnz", vec![]),
    ];
    assert_eq!(
        Block::from_function(&f).err(),
        Some("No label found for conditional jump instruction in block 0".to_string())
    );
}

#[test]
fn test_empty_function() {
    let g = Block::from_function(&Vec::new()).ok().expect("a graph");
    assert_eq!(g.node_count(), 0);
    assert_eq!(g.edge_count(), 0);
}

#[test]
fn test_liveness_kills_written_variables() {
    let f = vec![
        PASMInstruction::new_label("f".to_string()),
        ins("mov", vec![id("a"), id("b")]),
        ins("push", vec![id("a")]),
    ];
    let g = Block::from_function(&f).ok().expect("a graph");
    assert_eq!(
        g.node_weight(NodeIndex::new(0)).unwrap().to_string(),
        "0 - \nf: (b)\nmov @a @b (b)\npush @a (a)"
    );
}
