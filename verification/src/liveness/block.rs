//! Basic blocks: runs of instructions entered only at their first instruction
//! and left only after their last one.
use vstd::prelude::*;

use super::sets::{copy_names, insert_name, remove_name};
use crate::ast::function::{names_view, FunctionView};
use crate::pasm::program::{function_pasm, program_pasm, prologue, PFunctionView};
use crate::pasm::instruction::{instrs_view, instruction_text, live_and_dead, InstrView, PASMInstruction};
use crate::pasm::operand_type::{OperandType, OperandView};
use crate::text::{chars_equal, string_equals};
use petgraph::graph::{DiGraph, NodeIndex};
use crate::text::{extend_chars, nat_digits, push_nat_digits, str_chars, string_chars, string_from_chars};

verus! {

/// What a block is in the shape of the function.
#[derive(Debug, Clone, Copy, PartialEq, Eq, Structural)]
pub enum BlockTags {
    /// A block that a later block jumps back to.
    LoopStart,
    /// A block that ends with a jump back to an earlier block.
    LoopEnd,
    /// A block between the start and the end of a loop.
    InsideLoop,
    /// A block that ends with a conditional jump forward.
    IfStart,
    /// A block that a conditional jump forward goes to.
    IfEnd,
    /// A block run only when the condition of the `if` before it held.
    InsideIf,
}

impl BlockTags {
    /// The bit of the tag in a block's tags.
    pub open spec fn spec_bit(self) -> u8 {
        match self {
            BlockTags::LoopStart => 1,
            BlockTags::LoopEnd => 2,
            BlockTags::InsideLoop => 4,
            BlockTags::IfStart => 8,
            BlockTags::IfEnd => 16,
            BlockTags::InsideIf => 32,
        }
    }

    /// The bit of the tag in a block's tags.
    pub fn bit(&self) -> (r: u8)
        ensures
            r == self.spec_bit(),
    {
        match self {
            BlockTags::LoopStart => 1,
            BlockTags::LoopEnd => 2,
            BlockTags::InsideLoop => 4,
            BlockTags::IfStart => 8,
            BlockTags::IfEnd => 16,
            BlockTags::InsideIf => 32,
        }
    }

    pub open spec fn spec_name(self) -> Seq<char> {
        match self {
            BlockTags::LoopStart => "LoopStart"@,
            BlockTags::LoopEnd => "LoopEnd"@,
            BlockTags::InsideLoop => "InsideLoop"@,
            BlockTags::IfStart => "IfStart"@,
            BlockTags::IfEnd => "IfEnd"@,
            BlockTags::InsideIf => "InsideIf"@,
        }
    }

    /// The name of the tag.
    pub fn name(&self) -> (r: &'static str)
        ensures
            r@ == self.spec_name(),
    {
        match self {
            BlockTags::LoopStart => "LoopStart",
            BlockTags::LoopEnd => "LoopEnd",
            BlockTags::InsideLoop => "InsideLoop",
            BlockTags::IfStart => "IfStart",
            BlockTags::IfEnd => "IfEnd",
            BlockTags::InsideIf => "InsideIf",
        }
    }

    /// All the tags, in order.
    pub fn iterator() -> (r: Vec<BlockTags>)
        ensures
            r@ == all_tags(),
    {
        let r = vec![
            BlockTags::LoopStart,
            BlockTags::LoopEnd,
            BlockTags::InsideLoop,
            BlockTags::IfStart,
            BlockTags::IfEnd,
            BlockTags::InsideIf,
        ];
        assert(r@ =~= all_tags());
        r
    }
}

/// All the tags, in order.
pub open spec fn all_tags() -> Seq<BlockTags> {
    seq![
        BlockTags::LoopStart,
        BlockTags::LoopEnd,
        BlockTags::InsideLoop,
        BlockTags::IfStart,
        BlockTags::IfEnd,
        BlockTags::InsideIf,
    ]
}

/// A basic block: where it starts in the function, its instructions, the
/// variables still needed before each of them, and its tags.
pub struct Block {
    index: usize,
    instructions: Vec<PASMInstruction>,
    undead_out_sets: Vec<Vec<String>>,
    tags: u8,
}

/// The mathematical value of a [`Block`].
pub struct BlockView {
    pub index: usize,
    pub instructions: Seq<InstrView>,
    pub undead_out_sets: Seq<Seq<Seq<char>>>,
    pub tags: u8,
}

/// The values of lists of names.
pub open spec fn sets_view(s: Seq<Vec<String>>) -> Seq<Seq<Seq<char>>> {
    s.map_values(|v: Vec<String>| names_view(v@))
}

/// The values of a list of instructions.
pub open spec fn instructions_view(s: Seq<PASMInstruction>) -> Seq<InstrView> {
    s.map_values(|i: PASMInstruction| i@)
}

impl View for Block {
    type V = BlockView;

    closed spec fn view(&self) -> BlockView {
        BlockView {
            index: self.index,
            instructions: instructions_view(self.instructions@),
            undead_out_sets: sets_view(self.undead_out_sets@),
            tags: self.tags,
        }
    }
}

/// The variables still needed before the `k`-th instruction: those needed
/// after it, with those it reads, less those it writes.
pub open spec fn undead_at(instrs: Seq<InstrView>, k: int) -> Set<Seq<char>>
    decreases instrs.len() - k,
{
    if k < 0 || k >= instrs.len() {
        Set::empty()
    } else {
        let (live, dead) = live_and_dead(instrs[k]);
        undead_at(instrs, k + 1).union(live.to_set()).difference(dead.to_set())
    }
}

/// What the analysis of the live variables leaves in a block whose sets were
/// `before`: a set without repetition for each instruction, as [`undead_at`]
/// gives it, then the sets it had, then an empty set.
pub open spec fn analyzed(b: BlockView, before: Seq<Seq<Seq<char>>>) -> bool {
    let n = b.instructions.len();
    &&& b.undead_out_sets.len() == n + before.len() + 1
    &&& forall|k: int|
        0 <= k < n ==> {
            &&& (#[trigger] b.undead_out_sets[k]).no_duplicates()
            &&& b.undead_out_sets[k].to_set() == undead_at(b.instructions, k)
        }
    &&& forall|j: int| 0 <= j < before.len() ==> b.undead_out_sets[n + j] == before[j]
    &&& b.undead_out_sets[(n + before.len()) as int] == Seq::<Seq<char>>::empty()
}

/// The names of the tags a block has, in the order of [`all_tags`].
pub open spec fn tag_names(tags: u8, k: int) -> Seq<Seq<char>>
    decreases k,
{
    if k <= 0 {
        seq![]
    } else if tags & all_tags()[k - 1].spec_bit() != 0 {
        tag_names(tags, k - 1).push(all_tags()[k - 1].spec_name())
    } else {
        tag_names(tags, k - 1)
    }
}

/// Names joined with `, `.
pub open spec fn joined(s: Seq<Seq<char>>) -> Seq<char>
    decreases s.len(),
{
    if s.len() == 0 {
        seq![]
    } else if s.len() == 1 {
        s[0]
    } else {
        joined(s.drop_last()) + ", "@ + s.last()
    }
}

/// The lines of a block: each instruction with the variables needed before it,
/// for the instructions that have a set.
pub open spec fn block_lines(b: BlockView, k: int) -> Seq<char>
    decreases k,
{
    if k <= 0 {
        seq![]
    } else {
        let line = instruction_text(b.instructions[k - 1]) + " ("@ + joined(b.undead_out_sets[k - 1])
            + ")"@;
        if k == 1 {
            line
        } else {
            block_lines(b, k - 1) + "\n"@ + line
        }
    }
}

/// The text of a block: its index and tags, then its lines.
pub open spec fn block_text(b: BlockView) -> Seq<char> {
    let n = if b.instructions.len() < b.undead_out_sets.len() {
        b.instructions.len()
    } else {
        b.undead_out_sets.len()
    };
    nat_digits(b.index as nat) + " - "@ + joined(tag_names(b.tags, 6)) + "\n"@ + block_lines(b, n as int)
}

/// Appends `s`, joined with `, ` to what `out` already holds of a list.
fn push_joined(out: &mut Vec<char>, names: &Vec<Vec<char>>)
    ensures
        final(out)@ == old(out)@ + joined(names@.map_values(|v: Vec<char>| v@)),
{
    let ghost nv = names@.map_values(|v: Vec<char>| v@);
    let ghost start = out@;
    let mut i: usize = 0;
    while i < names.len()
        invariant
            i <= names.len(),
            nv == names@.map_values(|v: Vec<char>| v@),
            out@ == start + joined(nv.take(i as int)),
        decreases names.len() - i,
    {
        assert(nv.take(i + 1).drop_last() =~= nv.take(i as int));
        if i > 0 {
            extend_chars(out, &str_chars(", "));
        }
        extend_chars(out, &names[i]);
        i = i + 1;
    }
    assert(nv.take(names.len() as int) =~= nv);
}

fn names_chars(names: &Vec<String>) -> (r: Vec<Vec<char>>)
    ensures
        r@.map_values(|v: Vec<char>| v@) == names_view(names@),
{
    let mut r: Vec<Vec<char>> = Vec::new();
    let mut i: usize = 0;
    while i < names.len()
        invariant
            i <= names.len(),
            r@.map_values(|v: Vec<char>| v@) == names_view(names@).take(i as int),
        decreases names.len() - i,
    {
        let ghost prev = r@;
        r.push(string_chars(&names[i]));
        assert(r@.map_values(|v: Vec<char>| v@) =~= prev.map_values(|v: Vec<char>| v@).push(
            names@[i as int]@,
        ));
        assert(names_view(names@).take(i + 1) =~= names_view(names@).take(i as int).push(
            names@[i as int]@,
        ));
        i = i + 1;
    }
    assert(names_view(names@).take(names.len() as int) =~= names_view(names@));
    r
}

impl Block {
    /// A block starting at `index`, with no instruction.
    pub fn new(index: usize) -> (r: Block)
        ensures
            r@ == (BlockView {
                index,
                instructions: seq![],
                undead_out_sets: seq![],
                tags: 0,
            }),
    {
        let r = Block { index, instructions: Vec::new(), undead_out_sets: Vec::new(), tags: 0 };
        assert(instructions_view(r.instructions@) =~= seq![]);
        assert(sets_view(r.undead_out_sets@) =~= seq![]);
        r
    }

    /// Computes, from the last instruction to the first, the variables still
    /// needed before each instruction, and puts these sets in front of those
    /// the block had, followed by an empty set (see [`analyzed`]).
    pub fn dead_analysis(&mut self)
        ensures
            final(self)@.index == old(self)@.index,
            final(self)@.instructions == old(self)@.instructions,
            final(self)@.tags == old(self)@.tags,
            analyzed(final(self)@, old(self)@.undead_out_sets),
    {
        let ghost before = sets_view(self.undead_out_sets@);
        let ghost instrs = instructions_view(self.instructions@);
        let n = self.instructions.len();
        let ghost p0 = sets_view(self.undead_out_sets@);
        let empty: Vec<String> = Vec::new();
        assert(names_view(empty@) =~= seq![]);
        self.undead_out_sets.push(empty);
        assert(sets_view(self.undead_out_sets@) =~= p0.push(seq![]));
        let mut live_set: Vec<String> = Vec::new();
        assert(names_view(live_set@) =~= seq![]);
        assert(undead_at(instrs, n as int) =~= Set::empty());
        let mut k: usize = n;
        while k > 0
            invariant
                k <= n,
                n == self.instructions.len(),
                self.index == old(self).index,
                self.tags == old(self).tags,
                self.instructions@ == old(self).instructions@,
                instrs == instructions_view(self.instructions@),
                names_view(live_set@).no_duplicates(),
                names_view(live_set@).to_set() == undead_at(instrs, k as int),
                sets_view(self.undead_out_sets@).len() == (n - k) + before.len() + 1,
                forall|j: int|
                    0 <= j < n - k ==> {
                        &&& (#[trigger] sets_view(self.undead_out_sets@)[j]).no_duplicates()
                        &&& sets_view(self.undead_out_sets@)[j].to_set() == undead_at(instrs, k + j)
                    },
                forall|j: int|
                    0 <= j < before.len() ==> sets_view(self.undead_out_sets@)[(n - k) + j] == before[j],
                sets_view(self.undead_out_sets@)[(n - k) + before.len()] == Seq::<Seq<char>>::empty(),
            decreases k,
        {
            k = k - 1;
            let (live, dead) = self.instructions[k].get_live_and_dead();
            let ghost ld = live_and_dead(instrs[k as int]);
            let ghost mid = names_view(live_set@).to_set();
            let mut i: usize = 0;
            while i < live.len()
                invariant
                    i <= live.len(),
                    live@.map_values(|s: String| s@) == ld.0,
                    names_view(live_set@).no_duplicates(),
                    names_view(live_set@).to_set() == mid.union(ld.0.take(i as int).to_set()),
                decreases live.len() - i,
            {
                insert_name(&mut live_set, &live[i]);
                assert(ld.0.take(i + 1) =~= ld.0.take(i as int).push(ld.0[i as int]));
                proof {
                    ld.0.take(i as int).lemma_push_to_set_commute(ld.0[i as int]);
                }
                assert(mid.union(ld.0.take(i + 1).to_set()) =~= mid.union(ld.0.take(i as int).to_set()).insert(ld.0[i as int]));
                i = i + 1;
            }
            assert(ld.0.take(live.len() as int) =~= ld.0);
            let ghost mid2 = names_view(live_set@).to_set();
            let mut i: usize = 0;
            while i < dead.len()
                invariant
                    i <= dead.len(),
                    dead@.map_values(|s: String| s@) == ld.1,
                    names_view(live_set@).no_duplicates(),
                    names_view(live_set@).to_set() == mid2.difference(ld.1.take(i as int).to_set()),
                decreases dead.len() - i,
            {
                remove_name(&mut live_set, &dead[i]);
                assert(ld.1.take(i + 1) =~= ld.1.take(i as int).push(ld.1[i as int]));
                proof {
                    ld.1.take(i as int).lemma_push_to_set_commute(ld.1[i as int]);
                }
                assert(mid2.difference(ld.1.take(i + 1).to_set()) =~= mid2.difference(ld.1.take(i as int).to_set()).remove(ld.1[i as int]));
                i = i + 1;
            }
            assert(ld.1.take(dead.len() as int) =~= ld.1);
            let ghost prev = sets_view(self.undead_out_sets@);
            self.undead_out_sets.insert(0, copy_names(&live_set));
            assert(sets_view(self.undead_out_sets@) =~= seq![names_view(live_set@)] + prev);
        }
    }

    /// The text of the block, as [`block_text`] gives it.
    pub fn to_string(&self) -> (r: String)
        ensures
            r@ == block_text(self@),
    {
        let mut out: Vec<char> = Vec::new();
        push_nat_digits(&mut out, self.index as u64);
        extend_chars(&mut out, &str_chars(" - "));
        let all = BlockTags::iterator();
        let mut names: Vec<Vec<char>> = Vec::new();
        let mut t: usize = 0;
        while t < 6
            invariant
                t <= 6,
                all@ == all_tags(),
                names@.map_values(|v: Vec<char>| v@) == tag_names(self.tags, t as int),
            decreases 6 - t,
        {
            let ghost prev = names@;
            if self.tags & all[t].bit() != 0 {
                names.push(str_chars(all[t].name()));
                assert(names@.map_values(|v: Vec<char>| v@) =~= prev.map_values(|v: Vec<char>| v@).push(all_tags()[t as int].spec_name()));
            }
            t = t + 1;
        }
        push_joined(&mut out, &names);
        extend_chars(&mut out, &str_chars("\n"));
        let n = if self.instructions.len() < self.undead_out_sets.len() {
            self.instructions.len()
        } else {
            self.undead_out_sets.len()
        };
        let ghost bv = self@;
        let ghost head = out@;
        let mut k: usize = 0;
        while k < n
            invariant
                k <= n,
                n <= self.instructions.len(),
                n <= self.undead_out_sets.len(),
                bv == self@,
                out@ == head + block_lines(bv, k as int),
            decreases n - k,
        {
            if k > 0 {
                extend_chars(&mut out, &str_chars("\n"));
            }
            extend_chars(&mut out, &string_chars(&self.instructions[k].to_string()));
            extend_chars(&mut out, &str_chars(" ("));
            push_joined(&mut out, &names_chars(&self.undead_out_sets[k]));
            extend_chars(&mut out, &str_chars(")"));
            k = k + 1;
        }
        string_from_chars(&out)
    }
}

// ---------------------------------------------------------------------------
// The graph of a function's blocks
// ---------------------------------------------------------------------------

/// `petgraph`'s graph, known to Verus as an opaque type.
#[verifier::external_type_specification]
#[verifier::external_body]
#[verifier::reject_recursive_types(N)]
#[verifier::reject_recursive_types(E)]
#[verifier::reject_recursive_types(Ty)]
#[verifier::reject_recursive_types(Ix)]
pub struct ExGraph<N, E, Ty, Ix>(petgraph::graph::Graph<N, E, Ty, Ix>);

/// `petgraph`'s marker of directed graphs, known to Verus as an opaque type.
#[verifier::external_type_specification]
#[verifier::external_body]
pub struct ExDirected(petgraph::Directed);

/// The blocks a graph of blocks holds, in the order of their node indexes
/// (the weights of `petgraph`'s `Graph` nodes).
pub uninterp spec fn graph_blocks(g: petgraph::graph::Graph<Block, (), petgraph::Directed, u32>) -> Seq<BlockView>;

/// The edges of a graph of blocks, in the order they were added, each as the
/// node indexes of its source and its target (the endpoints of `petgraph`'s
/// `Graph` edges).
pub uninterp spec fn graph_edges(g: petgraph::graph::Graph<Block, (), petgraph::Directed, u32>) -> Seq<(nat, nat)>;

/// Trusted: calls `petgraph::graph::Graph::new`, which builds a directed graph
/// whose node and edge lists are empty; the contract claims no node and no
/// edge.
#[verifier::external_body]
fn empty_graph() -> (g: DiGraph<Block, ()>)
    ensures
        graph_blocks(g) == Seq::<BlockView>::empty(),
        graph_edges(g) == Seq::<(nat, nat)>::empty(),
{
    DiGraph::new()
}

/// Trusted: calls `petgraph::graph::Graph::add_node`, which pushes a node
/// holding `b` at the end of the node list and returns its index, the number
/// of nodes before it; it panics when that index would be `u32::MAX`, which
/// the `requires` leaves out. The contract claims the node list grows by `b`,
/// the edges stay, and the index is the old number of nodes.
#[verifier::external_body]
fn add_block(g: &mut DiGraph<Block, ()>, b: Block) -> (i: usize)
    requires
        graph_blocks(*old(g)).len() < u32::MAX,
    ensures
        graph_blocks(*final(g)) == graph_blocks(*old(g)).push(b@),
        graph_edges(*final(g)) == graph_edges(*old(g)),
        i == graph_blocks(*old(g)).len(),
{
    g.add_node(b).index()
}

/// Trusted: calls `petgraph::graph::Graph::add_edge`, which pushes an edge
/// from node `a` to node `b` at the end of the edge list; it panics when a node
/// is missing or when the edge's index would be `u32::MAX`, which the
/// `requires` leaves out. The contract claims the nodes stay and the edge list
/// grows by `(a, b)`.
#[verifier::external_body]
fn add_link(g: &mut DiGraph<Block, ()>, a: usize, b: usize)
    requires
        a < graph_blocks(*old(g)).len(),
        b < graph_blocks(*old(g)).len(),
        graph_edges(*old(g)).len() < u32::MAX,
    ensures
        graph_blocks(*final(g)) == graph_blocks(*old(g)),
        graph_edges(*final(g)) == graph_edges(*old(g)).push((a as nat, b as nat)),
{
    g.add_edge(NodeIndex::new(a), NodeIndex::new(b), ());
}

/// Whether an opcode is a jump: `jmp`, `jp`, `jn`, `jz` or `jnz`.
pub open spec fn is_jump_opcode(o: Seq<char>) -> bool {
    o == "jmp"@ || o == "jp"@ || o == "jn"@ || o == "jz"@ || o == "jnz"@
}

/// A block starting at `index` with no instruction.
pub open spec fn fresh_block(index: usize, instructions: Seq<InstrView>) -> BlockView {
    BlockView { index, instructions, undead_out_sets: seq![], tags: 0 }
}

/// The blocks of the first `n` instructions of a function, in the order of
/// their starts: a label starts a block (in place of the empty one a jump just
/// before it started), an instruction goes to the last block, and a jump ends
/// its block, the next one starting right after it.
pub open spec fn blocks_upto(f: Seq<InstrView>, n: int) -> Seq<BlockView>
    decreases n,
{
    if n <= 0 || n > f.len() {
        seq![]
    } else {
        let prev = blocks_upto(f, n - 1);
        let idx = (n - 1) as usize;
        let ins = f[n - 1];
        if ins.is_label {
            if prev.len() > 0 && prev.last().index == idx {
                prev.drop_last().push(fresh_block(idx, seq![ins]))
            } else {
                prev.push(fresh_block(idx, seq![ins]))
            }
        } else if prev.len() == 0 {
            prev
        } else {
            let cur = prev.last();
            let grown = prev.drop_last().push(
                BlockView { instructions: cur.instructions.push(ins), ..cur },
            );
            if is_jump_opcode(ins.opcode) {
                grown.push(fresh_block(n as usize, seq![]))
            } else {
                grown
            }
        }
    }
}

/// The blocks of a function; its first instruction must be a label.
pub open spec fn block_map(f: Seq<InstrView>) -> Result<Seq<BlockView>, Seq<char>> {
    if f.len() > 0 && !f[0].is_label {
        Err("First instruction in a function must be a label"@)
    } else {
        Ok(blocks_upto(f, f.len() as int))
    }
}

/// The labels of the first `n` instructions, with their indexes, in order.
pub open spec fn labels_upto(f: Seq<InstrView>, n: int) -> Seq<(usize, Seq<char>)>
    decreases n,
{
    if n <= 0 || n > f.len() {
        seq![]
    } else if f[n - 1].is_label {
        labels_upto(f, n - 1).push(((n - 1) as usize, f[n - 1].opcode))
    } else {
        labels_upto(f, n - 1)
    }
}

/// The index of the first label named `name`.
pub open spec fn label_position(labels: Seq<(usize, Seq<char>)>, name: Seq<char>) -> Option<usize>
    decreases labels.len(),
{
    if labels.len() == 0 {
        None
    } else if labels[0].1 == name {
        Some(labels[0].0)
    } else {
        label_position(labels.drop_first(), name)
    }
}

/// The name the first operand of an instruction gives, if it is a name.
pub open spec fn first_name(i: InstrView) -> Option<Seq<char>> {
    if i.operands.len() > 0 {
        match i.operands[0] {
            OperandView::Identifier { name } => Some(name),
            _ => None,
        }
    } else {
        None
    }
}

/// How a block ends: whether it always jumps, and the label it may jump to.
pub open spec fn final_jump(b: BlockView) -> Result<(bool, Option<Seq<char>>), Seq<char>> {
    if b.instructions.len() == 0 {
        Ok((false, None))
    } else {
        let last = b.instructions.last();
        if last.opcode == "jmp"@ {
            match first_name(last) {
                Some(l) => Ok((true, Some(l))),
                None => Err("No label found for jump instruction in block "@ + nat_digits(b.index as nat)),
            }
        } else if last.opcode == "jp"@ || last.opcode == "jn"@ || last.opcode == "jz"@ || last.opcode
            == "jnz"@ {
            match first_name(last) {
                Some(l) => Ok((false, Some(l))),
                None => Err(
                    "No label found for conditional jump instruction in block "@ + nat_digits(
                        b.index as nat,
                    ),
                ),
            }
        } else {
            Ok((false, None))
        }
    }
}

/// The error of the first of the first `n` blocks that ends with a jump
/// without a label.
pub open spec fn first_jump_error(bs: Seq<BlockView>, n: int) -> Option<Seq<char>>
    decreases n,
{
    if n <= 0 || n > bs.len() {
        None
    } else {
        match first_jump_error(bs, n - 1) {
            Some(e) => Some(e),
            None => match final_jump(bs[n - 1]) {
                Err(e) => Some(e),
                Ok(_) => None,
            },
        }
    }
}

/// Whether the label of every final jump of the blocks is defined.
pub open spec fn jumps_resolve(bs: Seq<BlockView>, labels: Seq<(usize, Seq<char>)>) -> bool {
    forall|k: int|
        #![trigger final_jump(bs[k])]
        0 <= k < bs.len() ==> match final_jump(bs[k]) {
            Ok((_, Some(l))) => label_position(labels, l) is Some,
            _ => true,
        }
}

/// Whether the jumps of the function's blocks all go to labels it defines.
pub open spec fn labels_defined(f: Seq<InstrView>) -> bool {
    match block_map(f) {
        Ok(bs) => jumps_resolve(bs, labels_upto(f, f.len() as int)),
        Err(_) => true,
    }
}

/// Whether a block always jumps, and the index of the label its final jump
/// names, when it has one and the label is defined.
pub open spec fn jump_of(b: BlockView, labels: Seq<(usize, Seq<char>)>) -> (bool, Option<usize>) {
    match final_jump(b) {
        Ok((forced, Some(l))) => (forced, label_position(labels, l)),
        Ok((forced, None)) => (forced, None),
        Err(_) => (false, None),
    }
}

/// Whether a block always jumps, and the index of the label it jumps to.
pub open spec fn jump_info(b: BlockView, labels: Seq<(usize, Seq<char>)>) -> Option<(bool, usize)> {
    match jump_of(b, labels) {
        (forced, Some(j)) => Some((forced, j)),
        _ => None,
    }
}

/// Where a block that starts an `if` jumps: a conditional jump forward.
pub open spec fn if_start_target(b: BlockView, labels: Seq<(usize, Seq<char>)>) -> Option<usize> {
    match jump_info(b, labels) {
        Some((forced, j)) => if !forced && j > b.index {
            Some(j)
        } else {
            None
        },
        None => None,
    }
}

/// Where a block that ends a loop jumps: any other jump backward.
pub open spec fn loop_end_target(b: BlockView, labels: Seq<(usize, Seq<char>)>) -> Option<usize> {
    match jump_info(b, labels) {
        Some((forced, j)) => if !(!forced && j > b.index) && j < b.index {
            Some(j)
        } else {
            None
        },
        None => None,
    }
}

/// Whether the block starting at `idx` ends an `if`: a block starting an `if`
/// jumps to it.
pub open spec fn ends_an_if(bs: Seq<BlockView>, labels: Seq<(usize, Seq<char>)>, idx: usize) -> bool {
    exists|c: int| 0 <= c < bs.len() && if_start_target(#[trigger] bs[c], labels) == Some(idx)
}

/// Whether the block starting at `idx` starts a loop: a block ending a loop
/// jumps back to it.
pub open spec fn starts_a_loop(bs: Seq<BlockView>, labels: Seq<(usize, Seq<char>)>, idx: usize) -> bool {
    exists|c: int| 0 <= c < bs.len() && loop_end_target(#[trigger] bs[c], labels) == Some(idx)
}

/// The tags of the `k`-th block: `LoopStart`, `LoopEnd`, `IfStart` and `IfEnd`.
pub open spec fn block_tags(bs: Seq<BlockView>, labels: Seq<(usize, Seq<char>)>, k: int) -> u8 {
    ((if starts_a_loop(bs, labels, bs[k].index) { 1int } else { 0 }) + (if loop_end_target(
        bs[k],
        labels,
    ) is Some {
        2int
    } else {
        0
    }) + (if if_start_target(bs[k], labels) is Some { 8int } else { 0 }) + (if ends_an_if(
        bs,
        labels,
        bs[k].index,
    ) {
        16int
    } else {
        0
    })) as u8
}

/// The position of the first of the first `n` blocks that starts at `idx`.
pub open spec fn find_block(bs: Seq<BlockView>, idx: int, n: int) -> Option<nat>
    decreases n,
{
    if n <= 0 || n > bs.len() {
        None
    } else {
        match find_block(bs, idx, n - 1) {
            Some(p) => Some(p),
            None => if bs[n - 1].index == idx {
                Some((n - 1) as nat)
            } else {
                None
            },
        }
    }
}

/// The edges from the `k`-th block: to the block its final jump goes to, then,
/// unless it always jumps, to the block right after it.
pub open spec fn block_links(bs: Seq<BlockView>, labels: Seq<(usize, Seq<char>)>, k: int) -> Seq<(nat, nat)> {
    match final_jump(bs[k]) {
        Err(_) => seq![],
        Ok((forced, label)) => {
            let jump = match label {
                Some(l) => match label_position(labels, l) {
                    Some(j) => match find_block(bs, j as int, bs.len() as int) {
                        Some(p) => seq![(k as nat, p)],
                        None => seq![],
                    },
                    None => seq![],
                },
                None => seq![],
            };
            let next = if forced {
                seq![]
            } else {
                match find_block(bs, bs[k].index + bs[k].instructions.len(), bs.len() as int) {
                    Some(p) => seq![(k as nat, p)],
                    None => seq![],
                }
            };
            jump + next
        },
    }
}

/// The edges from the first `n` blocks, block after block.
pub open spec fn all_links(bs: Seq<BlockView>, labels: Seq<(usize, Seq<char>)>, n: int) -> Seq<(nat, nat)>
    decreases n,
{
    if n <= 0 || n > bs.len() {
        seq![]
    } else {
        all_links(bs, labels, n - 1) + block_links(bs, labels, n - 1)
    }
}

/// A node of the graph of a function, made from its `k`-th block: the block
/// with its tags and the sets of its live variables.
pub open spec fn graph_node(v: BlockView, bs: Seq<BlockView>, labels: Seq<(usize, Seq<char>)>, k: int) -> bool {
    &&& v.index == bs[k].index
    &&& v.instructions == bs[k].instructions
    &&& v.tags == block_tags(bs, labels, k)
    &&& analyzed(v, seq![])
}

/// What the graph of a function is: its blocks in the order of their starts,
/// each as [`graph_node`] gives it, and the edges [`all_links`] gives.
pub open spec fn function_graph(
    g: petgraph::graph::Graph<Block, (), petgraph::Directed, u32>,
    bs: Seq<BlockView>,
    labels: Seq<(usize, Seq<char>)>,
) -> bool {
    &&& graph_blocks(g).len() == bs.len()
    &&& forall|k: int| 0 <= k < bs.len() ==> graph_node(#[trigger] graph_blocks(g)[k], bs, labels, k)
    &&& graph_edges(g) == all_links(bs, labels, bs.len() as int)
}


/// The labels of a list, with their indexes, as values.
pub open spec fn labels_view(s: Seq<(usize, String)>) -> Seq<(usize, Seq<char>)> {
    s.map_values(|p: (usize, String)| (p.0, p.1@))
}

/// The labels of a function with their indexes, in order.
fn extract_labels(function: &Vec<PASMInstruction>) -> (r: Vec<(usize, String)>)
    ensures
        labels_view(r@) == labels_upto(instrs_view(function@), function.len() as int),
{
    let ghost fv = instrs_view(function@);
    let mut r: Vec<(usize, String)> = Vec::new();
    let mut i: usize = 0;
    while i < function.len()
        invariant
            i <= function.len(),
            fv == instrs_view(function@),
            labels_view(r@) == labels_upto(fv, i as int),
        decreases function.len() - i,
    {
        if function[i].is_label {
            let ghost prev = r@;
            r.push((i, string_from_chars(&string_chars(&function[i].opcode))));
            assert(labels_view(r@) =~= labels_view(prev).push((i, fv[i as int].opcode)));
        }
        i = i + 1;
    }
    r
}

/// The index of the first label named `name`, as [`label_position`] gives it.
fn find_label(labels: &Vec<(usize, String)>, name: &String) -> (r: Option<usize>)
    ensures
        r == label_position(labels_view(labels@), name@),
{
    let ghost lv = labels_view(labels@);
    let n = string_chars(name);
    let mut i: usize = 0;
    assert(lv.skip(0) =~= lv);
    while i < labels.len()
        invariant
            i <= labels.len(),
            lv == labels_view(labels@),
            n@ == name@,
            label_position(lv, name@) == label_position(lv.skip(i as int), name@),
        decreases labels.len() - i,
    {
        assert(lv.skip(i as int).drop_first() =~= lv.skip(i + 1));
        if chars_equal(&string_chars(&labels[i].1), &n) {
            return Some(labels[i].0);
        }
        i = i + 1;
    }
    None
}

/// The name the first operand of an instruction gives, as [`first_name`] does.
fn first_operand_name(i: &PASMInstruction) -> (r: Option<String>)
    ensures
        match first_name(i@) {
            Some(n) => (r matches Some(s) && s@ == n),
            None => r is None,
        },
{
    if i.operands.len() > 0 {
        match &i.operands[0] {
            OperandType::Identifier { name } => Some(string_from_chars(&string_chars(name))),
            _ => None,
        }
    } else {
        None
    }
}

/// A message followed by a block's index.
fn message_with_index(msg: &str, index: usize) -> (r: String)
    ensures
        r@ == msg@ + nat_digits(index as nat),
{
    let mut out = str_chars(msg);
    push_nat_digits(&mut out, index as u64);
    string_from_chars(&out)
}

impl Block {
    /// How the block ends, as [`final_jump`] gives it: whether it always
    /// jumps, and the label it may jump to.
    fn get_final_jump(&self) -> (r: Result<(bool, Option<String>), String>)
        ensures
            match final_jump(self@) {
                Ok((forced, None)) => r == Ok::<(bool, Option<String>), String>((forced, None)),
                Ok((forced, Some(l))) => (r matches Ok((f, Some(s))) && f == forced && s@ == l),
                Err(m) => (r matches Err(e) && e@ == m),
            },
    {
        let n = self.instructions.len();
        if n == 0 {
            return Ok((false, None));
        }
        let last = &self.instructions[n - 1];
        assert(last@ == self@.instructions.last());
        if string_equals(&last.opcode, "jmp") {
            match first_operand_name(last) {
                Some(l) => Ok((true, Some(l))),
                None => Err(message_with_index("No label found for jump instruction in block ", self.index)),
            }
        } else if string_equals(&last.opcode, "jp") || string_equals(&last.opcode, "jn")
            || string_equals(&last.opcode, "jz") || string_equals(&last.opcode, "jnz") {
            match first_operand_name(last) {
                Some(l) => Ok((false, Some(l))),
                None => Err(
                    message_with_index(
                        "No label found for conditional jump instruction in block ",
                        self.index,
                    ),
                ),
            }
        } else {
            Ok((false, None))
        }
    }

    /// The blocks of a function, in the order of their starts, as
    /// [`block_map`] gives them.
    fn build_block_map(function: &Vec<PASMInstruction>) -> (r: Result<Vec<Block>, String>)
        ensures
            match block_map(instrs_view(function@)) {
                Ok(bs) => (r matches Ok(v) && blocks_view(v@) == bs),
                Err(m) => (r matches Err(e) && e@ == m),
            },
    {
        let ghost fv = instrs_view(function@);
        if function.len() > 0 && !function[0].is_label {
            return Err(string_from_chars(&str_chars("First instruction in a function must be a label")));
        }
        let mut blocks: Vec<Block> = Vec::new();
        let mut i: usize = 0;
        assert(blocks_view(blocks@) =~= seq![]);
        while i < function.len()
            invariant
                i <= function.len(),
                fv == instrs_view(function@),
                function.len() > 0 ==> fv[0].is_label,
                i > 0 ==> blocks@.len() > 0,
                blocks_view(blocks@) == blocks_upto(fv, i as int),
            decreases function.len() - i,
        {
            let ghost prev = blocks_view(blocks@);
            let ins = &function[i];
            if ins.is_label {
                let fresh = Block {
                    index: i,
                    instructions: vec![ins.duplicate()],
                    undead_out_sets: Vec::new(),
                    tags: 0,
                };
                assert(instructions_view(fresh.instructions@) =~= seq![fv[i as int]]);
                assert(sets_view(fresh.undead_out_sets@) =~= seq![]);
                assert(fresh@ == fresh_block(i, seq![fv[i as int]]));
                let n = blocks.len();
                if n > 0 && blocks[n - 1].index == i {
                    blocks.pop();
                    assert(blocks_view(blocks@) =~= prev.drop_last());
                }
                let ghost mid = blocks_view(blocks@);
                blocks.push(fresh);
                assert(blocks_view(blocks@) =~= mid.push(fresh_block(i, seq![fv[i as int]])));
            } else {
                let mut cur = blocks.pop().unwrap();
                assert(blocks_view(blocks@) =~= prev.drop_last());
                let ghost cv = cur@;
                let ghost ci = cur.instructions@;
                cur.instructions.push(ins.duplicate());
                assert(instructions_view(cur.instructions@) =~= instructions_view(ci).push(fv[i as int]));
                assert(cur@ == BlockView { instructions: cv.instructions.push(fv[i as int]), ..cv });
                let ghost mid = blocks_view(blocks@);
                blocks.push(cur);
                assert(blocks_view(blocks@) =~= mid.push(cur@));
                if string_equals(&ins.opcode, "jmp") || string_equals(&ins.opcode, "jp")
                    || string_equals(&ins.opcode, "jn") || string_equals(&ins.opcode, "jz")
                    || string_equals(&ins.opcode, "jnz") {
                    let next = Block::new(i + 1);
                    let ghost mid2 = blocks_view(blocks@);
                    blocks.push(next);
                    assert(blocks_view(blocks@) =~= mid2.push(fresh_block((i + 1) as usize, seq![])));
                }
            }
            i = i + 1;
        }
        Ok(blocks)
    }
}

/// The values of a list of blocks.
pub open spec fn blocks_view(s: Seq<Block>) -> Seq<BlockView> {
    s.map_values(|b: Block| b@)
}


/// Blocks only grow as far as the instructions they are made of: there are no
/// more blocks than instructions, each starts at most one past the last
/// instruction, none has live sets or tags yet.
pub proof fn lemma_blocks_shape(f: Seq<InstrView>, n: int)
    requires
        0 <= n <= f.len(),
    ensures
        blocks_upto(f, n).len() <= n,
        forall|k: int|
            0 <= k < blocks_upto(f, n).len() ==> {
                &&& (#[trigger] blocks_upto(f, n)[k]).undead_out_sets == Seq::<Seq<Seq<char>>>::empty()
                &&& blocks_upto(f, n)[k].tags == 0
            },
    decreases n,
{
    if n > 0 {
        lemma_blocks_shape(f, n - 1);
        let prev = blocks_upto(f, n - 1);
        let cur = blocks_upto(f, n);
        assert forall|k: int| 0 <= k < cur.len() implies {
            &&& (#[trigger] cur[k]).undead_out_sets == Seq::<Seq<Seq<char>>>::empty()
            &&& cur[k].tags == 0
        } by {
            if k < prev.len() - 1 || (k == prev.len() - 1 && cur[k] == prev[k]) {
                assert(cur[k] == prev[k]);
            }
        }
    }
}

/// The position of the first block starting at `idx`, as [`find_block`] gives it.
fn find_block_pos(blocks: &Vec<Block>, idx: usize) -> (r: Option<usize>)
    ensures
        match find_block(blocks_view(blocks@), idx as int, blocks@.len() as int) {
            Some(p) => r == Some(p as usize),
            None => r is None,
        },
{
    let ghost bv = blocks_view(blocks@);
    let mut i: usize = 0;
    while i < blocks.len()
        invariant
            i <= blocks.len(),
            bv == blocks_view(blocks@),
            find_block(bv, idx as int, i as int) is None,
        decreases blocks.len() - i,
    {
        if blocks[i].index == idx {
            proof {
                lemma_find_block_stays(bv, idx as int, i + 1, blocks.len() as int);
            }
            return Some(i);
        }
        i = i + 1;
    }
    None
}

/// Once found among the first `j` blocks, a block is what is found among more.
proof fn lemma_find_block_stays(bs: Seq<BlockView>, idx: int, j: int, k: int)
    requires
        0 <= j <= k <= bs.len(),
        find_block(bs, idx, j) is Some,
    ensures
        find_block(bs, idx, k) == find_block(bs, idx, j),
    decreases k - j,
{
    if k > j {
        lemma_find_block_stays(bs, idx, j, k - 1);
    }
}

/// The final jump of each block, as [`jump_of`] gives it, or the error of the
/// first block whose final jump names no label.
fn jumps_of(blocks: &Vec<Block>, labels: &Vec<(usize, String)>) -> (r: Result<Vec<(bool, Option<usize>)>, String>)
    ensures
        match first_jump_error(blocks_view(blocks@), blocks@.len() as int) {
            Some(m) => (r matches Err(e) && e@ == m),
            None => (r matches Ok(v) && v@.len() == blocks@.len() && forall|k: int|
                0 <= k < v@.len() ==> v@[k] == jump_of(blocks_view(blocks@)[k], labels_view(labels@))),
        },
{
    let ghost bv = blocks_view(blocks@);
    let ghost lv = labels_view(labels@);
    let mut infos: Vec<(bool, Option<usize>)> = Vec::new();
    let mut k: usize = 0;
    while k < blocks.len()
        invariant
            k <= blocks.len(),
            bv == blocks_view(blocks@),
            lv == labels_view(labels@),
            first_jump_error(bv, k as int) is None,
            infos@.len() == k,
            forall|j: int| 0 <= j < k ==> infos@[j] == jump_of(bv[j], lv),
        decreases blocks.len() - k,
    {
        match blocks[k].get_final_jump() {
            Err(e) => {
                proof {
                    lemma_jump_error_stays(bv, k + 1, blocks.len() as int);
                }
                return Err(e);
            },
            Ok((forced, label)) => {
                let target = match label {
                    Some(l) => find_label(labels, &l),
                    None => None,
                };
                infos.push((forced, target));
            },
        }
        k = k + 1;
    }
    Ok(infos)
}

/// Once a block among the first `j` has a jump without a label, that error
/// is the first among more blocks.
proof fn lemma_jump_error_stays(bs: Seq<BlockView>, j: int, k: int)
    requires
        0 <= j <= k <= bs.len(),
        first_jump_error(bs, j) is Some,
    ensures
        first_jump_error(bs, k) == first_jump_error(bs, j),
    decreases k - j,
{
    if k > j {
        lemma_jump_error_stays(bs, j, k - 1);
    }
}

/// For each block, where it jumps when it starts an `if`, and where it jumps
/// when it ends a loop.
fn targets_of(blocks: &Vec<Block>, infos: &Vec<(bool, Option<usize>)>, Ghost(lv): Ghost<Seq<(usize, Seq<char>)>>) -> (r: (Vec<Option<usize>>, Vec<Option<usize>>))
    requires
        infos@.len() == blocks@.len(),
        forall|k: int| 0 <= k < infos@.len() ==> infos@[k] == jump_of(blocks_view(blocks@)[k], lv),
    ensures
        r.0@.len() == blocks@.len(),
        r.1@.len() == blocks@.len(),
        forall|k: int| 0 <= k < blocks@.len() ==> r.0@[k] == if_start_target(blocks_view(blocks@)[k], lv),
        forall|k: int| 0 <= k < blocks@.len() ==> r.1@[k] == loop_end_target(blocks_view(blocks@)[k], lv),
{
    let ghost bv = blocks_view(blocks@);
    let mut ifs: Vec<Option<usize>> = Vec::new();
    let mut loops: Vec<Option<usize>> = Vec::new();
    let mut k: usize = 0;
    while k < blocks.len()
        invariant
            k <= blocks.len(),
            bv == blocks_view(blocks@),
            infos@.len() == blocks@.len(),
            forall|j: int| 0 <= j < infos@.len() ==> infos@[j] == jump_of(bv[j], lv),
            ifs@.len() == k,
            loops@.len() == k,
            forall|j: int| 0 <= j < k ==> ifs@[j] == if_start_target(bv[j], lv),
            forall|j: int| 0 <= j < k ==> loops@[j] == loop_end_target(bv[j], lv),
        decreases blocks.len() - k,
    {
        let index = blocks[k].index;
        let (forced, target) = infos[k];
        match target {
            Some(j) => {
                if !forced && j > index {
                    ifs.push(Some(j));
                    loops.push(None);
                } else if j < index {
                    ifs.push(None);
                    loops.push(Some(j));
                } else {
                    ifs.push(None);
                    loops.push(None);
                }
            },
            None => {
                ifs.push(None);
                loops.push(None);
            },
        }
        k = k + 1;
    }
    (ifs, loops)
}

/// Whether `idx` is one of the targets.
fn is_target(targets: &Vec<Option<usize>>, idx: usize) -> (r: bool)
    ensures
        r == exists|c: int| 0 <= c < targets@.len() && #[trigger] targets@[c] == Some(idx),
{
    let mut c: usize = 0;
    while c < targets.len()
        invariant
            c <= targets.len(),
            forall|j: int| 0 <= j < c ==> targets@[j] != Some(idx),
        decreases targets.len() - c,
    {
        if targets[c] == Some(idx) {
            return true;
        }
        c = c + 1;
    }
    false
}

/// The tags of each block, as [`block_tags`] gives them.
fn tags_of(blocks: &Vec<Block>, ifs: &Vec<Option<usize>>, loops: &Vec<Option<usize>>, Ghost(lv): Ghost<Seq<(usize, Seq<char>)>>) -> (r: Vec<u8>)
    requires
        ifs@.len() == blocks@.len(),
        loops@.len() == blocks@.len(),
        forall|k: int| 0 <= k < blocks@.len() ==> ifs@[k] == if_start_target(blocks_view(blocks@)[k], lv),
        forall|k: int| 0 <= k < blocks@.len() ==> loops@[k] == loop_end_target(blocks_view(blocks@)[k], lv),
    ensures
        r@.len() == blocks@.len(),
        forall|k: int| 0 <= k < blocks@.len() ==> r@[k] == block_tags(blocks_view(blocks@), lv, k),
{
    let ghost bv = blocks_view(blocks@);
    let mut tags: Vec<u8> = Vec::new();
    let mut k: usize = 0;
    while k < blocks.len()
        invariant
            k <= blocks.len(),
            bv == blocks_view(blocks@),
            bv.len() == blocks@.len(),
            ifs@.len() == blocks@.len(),
            loops@.len() == blocks@.len(),
            forall|j: int| 0 <= j < blocks@.len() ==> ifs@[j] == if_start_target(bv[j], lv),
            forall|j: int| 0 <= j < blocks@.len() ==> loops@[j] == loop_end_target(bv[j], lv),
            tags@.len() == k,
            forall|j: int| 0 <= j < k ==> tags@[j] == block_tags(bv, lv, j),
        decreases blocks.len() - k,
    {
        let index = blocks[k].index;
        let mut t: u8 = 0;
        let starts = is_target(loops, index);
        let ends = is_target(ifs, index);
        proof {
            if starts {
                let c = choose|c: int| 0 <= c < loops@.len() && #[trigger] loops@[c] == Some(index);
                assert(loop_end_target(bv[c], lv) == Some(index));
            }
            if starts_a_loop(bv, lv, index) {
                let c = choose|c: int| 0 <= c < bv.len() && loop_end_target(#[trigger] bv[c], lv) == Some(index);
                assert(loops@[c] == Some(index));
            }
            if ends {
                let c = choose|c: int| 0 <= c < ifs@.len() && #[trigger] ifs@[c] == Some(index);
                assert(if_start_target(bv[c], lv) == Some(index));
            }
            if ends_an_if(bv, lv, index) {
                let c = choose|c: int| 0 <= c < bv.len() && if_start_target(#[trigger] bv[c], lv) == Some(index);
                assert(ifs@[c] == Some(index));
            }
        }
        if starts {
            t = t + 1;
        }
        if loops[k].is_some() {
            t = t + 2;
        }
        if ifs[k].is_some() {
            t = t + 8;
        }
        if ends {
            t = t + 16;
        }
        tags.push(t);
        k = k + 1;
    }
    tags
}

/// The edges between the blocks, as [`all_links`] gives them.
fn links_of(blocks: &Vec<Block>, infos: &Vec<(bool, Option<usize>)>, Ghost(lv): Ghost<Seq<(usize, Seq<char>)>>) -> (r: Vec<(usize, usize)>)
    requires
        infos@.len() == blocks@.len(),
        forall|k: int| 0 <= k < infos@.len() ==> infos@[k] == jump_of(blocks_view(blocks@)[k], lv),
        first_jump_error(blocks_view(blocks@), blocks@.len() as int) is None,
    ensures
        links_view(r@) == all_links(blocks_view(blocks@), lv, blocks@.len() as int),
        r@.len() <= 2 * blocks@.len(),
        forall|j: int| 0 <= j < r@.len() ==> r@[j].0 < blocks@.len() && r@[j].1 < blocks@.len(),
{
    let ghost bv = blocks_view(blocks@);
    proof {
        lemma_no_jump_error(bv, bv.len() as int);
    }
    let mut links: Vec<(usize, usize)> = Vec::new();
    let mut k: usize = 0;
    assert(links_view(links@) =~= seq![]);
    while k < blocks.len()
        invariant
            k <= blocks.len(),
            bv == blocks_view(blocks@),
            infos@.len() == blocks@.len(),
            forall|j: int| 0 <= j < infos@.len() ==> infos@[j] == jump_of(bv[j], lv),
            forall|j: int| 0 <= j < bv.len() ==> final_jump(#[trigger] bv[j]) is Ok,
            links_view(links@) == all_links(bv, lv, k as int),
            links@.len() <= 2 * k,
            forall|j: int| 0 <= j < links@.len() ==> links@[j].0 < blocks@.len() && links@[j].1 < blocks@.len(),
        decreases blocks.len() - k,
    {
        let ghost before = links_view(links@);
        let (forced, target) = infos[k];
        match target {
            Some(j) => {
                match find_block_pos(blocks, j) {
                    Some(p) => {
                        proof { lemma_find_block_bound(bv, j as int, bv.len() as int); }
                        links.push((k, p));
                    },
                    None => {},
                }
            },
            None => {},
        }
        if !forced {
            match blocks[k].index.checked_add(blocks[k].instructions.len()) {
                Some(next) => {
                    match find_block_pos(blocks, next) {
                        Some(p) => {
                            proof { lemma_find_block_bound(bv, next as int, bv.len() as int); }
                            links.push((k, p));
                        },
                        None => {},
                    }
                },
                None => {
                    proof { lemma_find_block_none(bv, bv[k as int].index + bv[k as int].instructions.len(), bv.len() as int); }
                },
            }
        }
        assert(links_view(links@) =~= before + block_links(bv, lv, k as int));
        k = k + 1;
    }
    links
}

/// A block that is found is one of the blocks.
proof fn lemma_find_block_bound(bs: Seq<BlockView>, idx: int, n: int)
    requires
        0 <= n <= bs.len(),
    ensures
        find_block(bs, idx, n) matches Some(p) ==> p < n,
    decreases n,
{
    if n > 0 {
        lemma_find_block_bound(bs, idx, n - 1);
    }
}

/// No block starts past what a `usize` holds.
proof fn lemma_find_block_none(bs: Seq<BlockView>, idx: int, n: int)
    requires
        0 <= n <= bs.len(),
        idx > usize::MAX,
    ensures
        find_block(bs, idx, n) is None,
    decreases n,
{
    if n > 0 {
        lemma_find_block_none(bs, idx, n - 1);
    }
}

/// Without a first error, no block has an error.
proof fn lemma_no_jump_error(bs: Seq<BlockView>, n: int)
    requires
        0 <= n <= bs.len(),
        first_jump_error(bs, n) is None,
    ensures
        forall|j: int| 0 <= j < n ==> final_jump(#[trigger] bs[j]) is Ok,
    decreases n,
{
    if n > 0 {
        lemma_no_jump_error(bs, n - 1);
    }
}

/// Edges as pairs of node indexes.
pub open spec fn links_view(s: Seq<(usize, usize)>) -> Seq<(nat, nat)> {
    s.map_values(|p: (usize, usize)| (p.0 as nat, p.1 as nat))
}

impl Block {
    /// The graph of the blocks of a function: the blocks in the order of their
    /// starts, tagged and with the sets of their live variables, linked from
    /// each block to the one its final jump goes to and, unless it always
    /// jumps, to the one right after it. The first instruction must be a
    /// label, and every final jump must name a label.
    pub fn from_function(function: &Vec<PASMInstruction>) -> (r: Result<DiGraph<Block, ()>, String>)
        requires
            function.len() < 0x4000_0000,
            labels_defined(instrs_view(function@)),
        ensures
            match block_map(instrs_view(function@)) {
                Err(m) => (r matches Err(e) && e@ == m),
                Ok(bs) => match first_jump_error(bs, bs.len() as int) {
                    Some(m) => (r matches Err(e) && e@ == m),
                    None => (r matches Ok(g) && function_graph(
                        g,
                        bs,
                        labels_upto(instrs_view(function@), function.len() as int),
                    )),
                },
            },
    {
        let ghost fv = instrs_view(function@);
        let mut blocks = match Self::build_block_map(function) {
            Ok(b) => b,
            Err(e) => {
                return Err(e);
            },
        };
        let ghost bv = blocks_view(blocks@);
        proof {
            lemma_blocks_shape(fv, fv.len() as int);
        }
        let labels = extract_labels(function);
        let ghost lv = labels_view(labels@);
        let infos = match jumps_of(&blocks, &labels) {
            Ok(v) => v,
            Err(e) => {
                return Err(e);
            },
        };
        let (ifs, loops) = targets_of(&blocks, &infos, Ghost(lv));
        let tags = tags_of(&blocks, &ifs, &loops, Ghost(lv));
        let links = links_of(&blocks, &infos, Ghost(lv));
        let mut g = empty_graph();
        let n = blocks.len();
        let mut k: usize = 0;
        while k < n
            invariant
                k <= n,
                n == bv.len(),
                n < 0x4000_0000,
                blocks_view(blocks@) == bv.skip(k as int),
                tags@.len() == n,
                forall|j: int| 0 <= j < n ==> tags@[j] == block_tags(bv, lv, j),
                forall|j: int| 0 <= j < n ==> (#[trigger] bv[j]).undead_out_sets == Seq::<Seq<Seq<char>>>::empty(),
                graph_blocks(g).len() == k,
                forall|j: int| 0 <= j < k ==> graph_node(#[trigger] graph_blocks(g)[j], bv, lv, j),
                graph_edges(g) == Seq::<(nat, nat)>::empty(),
            decreases n - k,
        {
            let ghost rest = blocks_view(blocks@);
            assert(rest.len() == blocks@.len());
            assert(rest[0] == blocks@[0]@);
            assert(rest[0] == bv[k as int]);
            let ghost ob = blocks@;
            let mut b = blocks.remove(0);
            assert(b@ == bv[k as int]);
            assert(blocks@ =~= ob.remove(0));
            assert(blocks_view(blocks@) =~= rest.drop_first());
            assert(rest.drop_first() =~= bv.skip(k + 1));
            b.tags = tags[k];
            proof {
                assert(b@.undead_out_sets == Seq::<Seq<Seq<char>>>::empty());
            }
            b.dead_analysis();
            add_block(&mut g, b);
            k = k + 1;
        }
        let mut j: usize = 0;
        while j < links.len()
            invariant
                j <= links.len(),
                graph_blocks(g).len() == n,
                n == bv.len(),
                n < 0x4000_0000,
                links@.len() <= 2 * n,
                forall|i: int| 0 <= i < links@.len() ==> links@[i].0 < n && links@[i].1 < n,
                forall|i: int| 0 <= i < n ==> graph_node(#[trigger] graph_blocks(g)[i], bv, lv, i),
                graph_edges(g) == links_view(links@).take(j as int),
            decreases links.len() - j,
        {
            let (a, b) = links[j];
            add_link(&mut g, a, b);
            assert(links_view(links@).take(j + 1) =~= links_view(links@).take(j as int).push((a as nat, b as nat)));
            j = j + 1;
        }
        assert(links_view(links@).take(links.len() as int) =~= links_view(links@));
        Ok(g)
    }
}


/// The instructions of a list of blocks, one block after the other.
pub open spec fn block_instructions(bs: Seq<BlockView>) -> Seq<InstrView>
    decreases bs.len(),
{
    if bs.len() == 0 {
        seq![]
    } else {
        block_instructions(bs.drop_last()) + bs.last().instructions
    }
}

/// Whether each block starts where the instructions of the blocks before it
/// end.
pub open spec fn starts_in_order(bs: Seq<BlockView>) -> bool {
    forall|k: int| 0 <= k < bs.len() ==> (#[trigger] bs[k]).index == block_instructions(bs.take(k)).len()
}

/// Changing the last block leaves the instructions of the others.
proof fn lemma_instructions_of_prefix(bs: Seq<BlockView>, x: BlockView, k: int)
    requires
        bs.len() > 0,
        0 <= k < bs.len(),
    ensures
        bs.drop_last().push(x).take(k) == bs.take(k),
{
    assert(bs.drop_last().push(x).take(k) =~= bs.take(k));
}

/// The blocks of a function split it: one after the other, their
/// instructions are the function's instructions, and each block starts at
/// the index of its first instruction.
pub proof fn lemma_blocks_split_function(f: Seq<InstrView>, n: int)
    requires
        0 <= n <= f.len(),
        f.len() <= usize::MAX,
        f.len() > 0 ==> f[0].is_label,
    ensures
        block_instructions(blocks_upto(f, n)) == f.take(n),
        starts_in_order(blocks_upto(f, n)),
        n > 0 ==> blocks_upto(f, n).len() > 0,
    decreases n,
{
    if n > 0 {
        lemma_blocks_split_function(f, n - 1);
        let prev = blocks_upto(f, n - 1);
        let cur = blocks_upto(f, n);
        let idx = (n - 1) as usize;
        let ins = f[n - 1];
        assert(f.take(n) =~= f.take(n - 1).push(ins));
        if ins.is_label {
            let fresh = fresh_block(idx, seq![ins]);
            if prev.len() > 0 && prev.last().index == idx {
                let k = prev.len() - 1;
                assert(prev.take(k) =~= prev.drop_last());
                assert(prev[k].index == block_instructions(prev.take(k)).len());
                assert(block_instructions(prev) == block_instructions(prev.drop_last()) + prev.last().instructions);
                assert(prev.last().instructions.len() == 0);
                assert(block_instructions(prev) =~= block_instructions(prev.drop_last()));
                assert(cur.drop_last() =~= prev.drop_last());
                assert(cur.take(k) =~= prev.drop_last());
                assert forall|j: int| 0 <= j < cur.len() implies (#[trigger] cur[j]).index == block_instructions(cur.take(j)).len() by {
                    if j < k {
                        lemma_instructions_of_prefix(prev, fresh, j);
                        assert(cur[j] == prev[j]);
                    }
                }
            } else {
                assert(cur.drop_last() =~= prev);
                assert(cur.take(prev.len() as int) =~= prev);
                assert forall|j: int| 0 <= j < cur.len() implies (#[trigger] cur[j]).index == block_instructions(cur.take(j)).len() by {
                    if j < prev.len() {
                        assert(cur.take(j) =~= prev.take(j));
                        assert(cur[j] == prev[j]);
                    }
                }
            }
        } else {
            let last = prev.last();
            let grown_last = BlockView { instructions: last.instructions.push(ins), ..last };
            let grown = prev.drop_last().push(grown_last);
            let k = prev.len() - 1;
            assert(grown.drop_last() =~= prev.drop_last());
            assert(block_instructions(prev) == block_instructions(prev.drop_last()) + last.instructions);
            assert(block_instructions(grown) =~= block_instructions(prev) + seq![ins]);
            assert forall|j: int| 0 <= j < grown.len() implies (#[trigger] grown[j]).index == block_instructions(grown.take(j)).len() by {
                if j < k {
                    lemma_instructions_of_prefix(prev, grown_last, j);
                    assert(grown[j] == prev[j]);
                } else {
                    assert(grown.take(j) =~= prev.take(j));
                }
            }
            if is_jump_opcode(ins.opcode) {
                assert(cur.drop_last() =~= grown);
                assert(cur.take(grown.len() as int) =~= grown);
                assert(block_instructions(cur) =~= block_instructions(grown));
                assert forall|j: int| 0 <= j < cur.len() implies (#[trigger] cur[j]).index == block_instructions(cur.take(j)).len() by {
                    if j < grown.len() {
                        assert(cur.take(j) =~= grown.take(j));
                        assert(cur[j] == grown[j]);
                    } else {
                        assert(cur.take(j) == grown);
                        assert(block_instructions(grown).len() == n);
                    }
                }
            }
        }
    }
}

/// The variables an instruction reads and does not write are needed before it.
pub proof fn lemma_read_is_live(instrs: Seq<InstrView>, k: int, x: Seq<char>)
    requires
        0 <= k < instrs.len(),
        live_and_dead(instrs[k]).0.contains(x),
        !live_and_dead(instrs[k]).1.contains(x),
    ensures
        undead_at(instrs, k).contains(x),
{
}

/// The variables an instruction writes are not needed before it.
pub proof fn lemma_written_is_dead(instrs: Seq<InstrView>, k: int, x: Seq<char>)
    requires
        0 <= k < instrs.len(),
        live_and_dead(instrs[k]).1.contains(x),
    ensures
        !undead_at(instrs, k).contains(x),
{
}

/// A variable needed after an instruction that does not write it is needed
/// before it.
pub proof fn lemma_live_passes_through(instrs: Seq<InstrView>, k: int, x: Seq<char>)
    requires
        0 <= k < instrs.len(),
        undead_at(instrs, k + 1).contains(x),
        !live_and_dead(instrs[k]).1.contains(x),
    ensures
        undead_at(instrs, k).contains(x),
{
}

/// Nothing is needed after the last instruction of a block.
pub proof fn lemma_nothing_live_at_end(instrs: Seq<InstrView>)
    ensures
        undead_at(instrs, instrs.len() as int) == Set::<Seq<char>>::empty(),
{
}


/// Every function the translation of a program gives starts with its label,
/// so that it splits into blocks: the blocks of generated code never fail on
/// a first instruction that is not a label.
pub proof fn lemma_generated_functions_have_blocks(fs: Seq<FunctionView>, c: usize)
    ensures
        program_pasm(fs, c).0 matches Ok(pfs) ==> forall|k: int|
            0 <= k < pfs.len() ==> #[trigger] block_map(pfs[k].instructions) is Ok,
    decreases fs.len(),
{
    if fs.len() > 0 {
        lemma_generated_functions_have_blocks(fs.drop_last(), c);
        let (r, c1) = program_pasm(fs.drop_last(), c);
        if let Ok(done) = r {
            let f = fs.last();
            let (g, c2) = function_pasm(f, c1);
            if let Ok(i) = g {
                assert(i[0] == prologue(f.name)[0]);
                let pfs = done.push(PFunctionView { name: f.name, parameters: f.parameters, instructions: i });
                assert forall|k: int| 0 <= k < pfs.len() implies #[trigger] block_map(pfs[k].instructions) is Ok by {
                    if k < done.len() {
                        assert(pfs[k] == done[k]);
                    }
                }
            }
        }
    }
}

} // verus!
