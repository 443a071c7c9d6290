//! Whole programs in pseudo-assembly.
use vstd::prelude::*;

use super::assignment::{append_instrs, instr0, instr1, instr2, no_instrs, push_instr};
use super::instruction::{instruction_text, instrs_view, label, op, InstrView, PASMInstruction};
use super::operand_type::{names_memory, names_register, OperandType, OperandView};
use super::translation::{block_gen, gen_result, inst_gen, lemma_block_gen_err};
use crate::ast::display::lemma_block_view_index;
use crate::ast::function::{names_view, Function, FunctionView};
use crate::ast::node::{block_view, NodeView};
use crate::ast::AST;
use crate::text::{
    chars_equal, extend_chars, str_chars, string_chars, string_equals, string_from_chars,
    to_owned_string,
};

verus! {

/// A function in pseudo-assembly: its name, its parameters and its instructions.
#[derive(Debug)]
pub struct PASMFunction {
    pub name: String,
    pub parameters: Vec<String>,
    pub instructions: Vec<PASMInstruction>,
}

/// The mathematical value of a [`PASMFunction`].
pub struct PFunctionView {
    pub name: Seq<char>,
    pub parameters: Seq<Seq<char>>,
    pub instructions: Seq<InstrView>,
}

impl View for PASMFunction {
    type V = PFunctionView;

    open spec fn view(&self) -> PFunctionView {
        PFunctionView {
            name: self.name@,
            parameters: names_view(self.parameters@),
            instructions: instrs_view(self.instructions@),
        }
    }
}

/// A program in pseudo-assembly, one entry per function of the source.
#[derive(Debug)]
pub struct PASMProgram {
    pub functions: Vec<PASMFunction>,
}

/// A function once its variables are given stack slots.
#[derive(Debug)]
pub struct AllocatedFunction {
    pub name: String,
    pub instructions: Vec<PASMInstruction>,
}

/// A program once its variables are given stack slots.
#[derive(Debug)]
pub struct PASMAllocatedProgram {
    pub functions: Vec<AllocatedFunction>,
}

/// The variable of the stack frame an operand names, if it does.
pub open spec fn operand_frame_name(o: OperandView) -> Seq<Seq<char>> {
    match o {
        OperandView::Identifier { name } => if !names_register(o) && !names_memory(o) {
            seq![name]
        } else {
            seq![]
        },
        _ => seq![],
    }
}

/// The frame variables named by a list of operands, in order.
pub open spec fn operands_frame_names(s: Seq<OperandView>) -> Seq<Seq<char>>
    decreases s.len(),
{
    if s.len() == 0 {
        seq![]
    } else {
        operands_frame_names(s.drop_last()) + operand_frame_name(s.last())
    }
}

/// The frame variables named by instructions, in order, with repetitions.
pub open spec fn frame_names(body: Seq<InstrView>) -> Seq<Seq<char>>
    decreases body.len(),
{
    if body.len() == 0 {
        seq![]
    } else {
        frame_names(body.drop_last()) + operands_frame_names(body.last().operands)
    }
}

/// The first occurrences of the names of `s`, in order.
pub open spec fn distinct(s: Seq<Seq<char>>) -> Seq<Seq<char>>
    decreases s.len(),
{
    if s.len() == 0 {
        seq![]
    } else {
        let d = distinct(s.drop_last());
        if d.contains(s.last()) {
            d
        } else {
            d.push(s.last())
        }
    }
}

/// How many names of `s` are not among `params`.
pub open spec fn count_not_in(s: Seq<Seq<char>>, params: Seq<Seq<char>>) -> nat
    decreases s.len(),
{
    if s.len() == 0 {
        0
    } else {
        count_not_in(s.drop_last(), params) + if params.contains(s.last()) {
            0nat
        } else {
            1nat
        }
    }
}

/// The number of stack slots a function's body needs: its distinct frame
/// variables that are not parameters.
pub open spec fn stack_size(body: Seq<InstrView>, params: Seq<Seq<char>>) -> nat {
    count_not_in(distinct(frame_names(body)), params)
}

/// The register variable `'name`, as an operand.
pub open spec fn quoted(name: Seq<char>) -> OperandView {
    OperandView::Identifier { name }
}

/// What a function starts with: its label, the base pointer saved (but in
/// `main`), the base pointer set to the stack pointer.
pub open spec fn prologue(name: Seq<char>) -> Seq<InstrView> {
    seq![label("function_"@ + name + "_label"@)] + (if name != "main"@ {
        seq![op("push"@, seq![quoted("'SBP"@)])]
    } else {
        seq![]
    }) + seq![op("mov"@, seq![quoted("'SBP"@), quoted("'TSP"@)])]
}

/// A function in pseudo-assembly: the prologue, room made on the stack for its
/// variables, its statements, and `halt` at the end of `main`.
pub open spec fn function_pasm(f: FunctionView, c: usize) -> (Result<Seq<InstrView>, Seq<char>>, usize) {
    let (inner, c1) = block_gen(f.content, c);
    match inner {
        Err(e) => (Err(e), c1),
        Ok(body) => (
            Ok(
                prologue(f.name) + seq![
                    op(
                        "sub"@,
                        seq![
                            quoted("'TSP"@),
                            OperandView::Literal { value: stack_size(body, f.parameters) as i32 },
                        ],
                    ),
                ] + body + (if f.name == "main"@ {
                    seq![op("halt"@, seq![])]
                } else {
                    seq![]
                }),
            ),
            c1,
        ),
    }
}

/// The functions of a program translated in order, the counter of names going
/// on from one to the next; or the first error.
pub open spec fn program_pasm(fs: Seq<FunctionView>, c: usize) -> (Result<Seq<PFunctionView>, Seq<char>>, usize)
    decreases fs.len(),
{
    if fs.len() == 0 {
        (Ok(seq![]), c)
    } else {
        let (r, c1) = program_pasm(fs.drop_last(), c);
        match r {
            Err(e) => (Err(e), c1),
            Ok(done) => {
                let f = fs.last();
                let (g, c2) = function_pasm(f, c1);
                match g {
                    Err(e) => (Err(e), c2),
                    Ok(i) => (
                        Ok(
                            done.push(
                                PFunctionView { name: f.name, parameters: f.parameters, instructions: i },
                            ),
                        ),
                        c2,
                    ),
                }
            },
        }
    }
}

/// The text of a program: each instruction on a line, labels followed by a
/// space, other instructions after a tab.
pub open spec fn listing(s: Seq<InstrView>) -> Seq<char>
    decreases s.len(),
{
    if s.len() == 0 {
        seq![]
    } else {
        listing(s.drop_last()) + if s.last().is_label {
            instruction_text(s.last()) + " \n"@
        } else {
            "\t"@ + instruction_text(s.last()) + "\n"@
        }
    }
}

fn push_listing(out: &mut Vec<char>, instructions: &Vec<PASMInstruction>)
    ensures
        final(out)@ == old(out)@ + listing(instrs_view(instructions@)),
{
    let ghost iv = instrs_view(instructions@);
    let mut i: usize = 0;
    while i < instructions.len()
        invariant
            i <= instructions.len(),
            iv == instrs_view(instructions@),
            out@ == old(out)@ + listing(iv.take(i as int)),
        decreases instructions.len() - i,
    {
        assert(iv.take(i + 1).drop_last() =~= iv.take(i as int));
        let text = string_chars(&instructions[i].to_string());
        if instructions[i].is_label {
            extend_chars(out, &text);
            extend_chars(out, &str_chars(" \n"));
        } else {
            out.push('\t');
            extend_chars(out, &text);
            out.push('\n');
            proof {
                reveal_strlit("\t");
                reveal_strlit("\n");
            }
        }
        i = i + 1;
    }
    assert(iv.take(instructions.len() as int) =~= iv);
}

fn operand_frame_variable(o: &OperandType) -> (r: Vec<String>)
    ensures
        names_view(r@) == operand_frame_name(o@),
{
    let mut r: Vec<String> = Vec::new();
    match o.get_frame_variable() {
        Some(name) => r.push(name),
        None => {},
    }
    assert(names_view(r@) =~= operand_frame_name(o@));
    r
}

fn contains_name(names: &Vec<String>, name: &String) -> (r: bool)
    ensures
        r == names_view(names@).contains(name@),
{
    let mut i: usize = 0;
    while i < names.len()
        invariant
            i <= names.len(),
            forall|k: int| 0 <= k < i ==> names@[k]@ != name@,
        decreases names.len() - i,
    {
        if chars_equal(&string_chars(&names[i]), &string_chars(name)) {
            assert(names_view(names@)[i as int] == name@);
            return true;
        }
        i = i + 1;
    }
    false
}

/// The distinct frame variables of instructions, in order of first use.
fn get_frame_variables(function: &Vec<PASMInstruction>) -> (r: Vec<String>)
    ensures
        names_view(r@) == distinct(frame_names(instrs_view(function@))),
{
    let ghost iv = instrs_view(function@);
    let mut seen: Vec<String> = Vec::new();
    let ghost mut all: Seq<Seq<char>> = seq![];
    let mut i: usize = 0;
    assert(names_view(seen@) =~= seq![]);
    while i < function.len()
        invariant
            i <= function.len(),
            iv == instrs_view(function@),
            all == frame_names(iv.take(i as int)),
            names_view(seen@) == distinct(all),
        decreases function.len() - i,
    {
        assert(iv.take(i + 1).drop_last() =~= iv.take(i as int));
        let operands = &function[i].operands;
        let ghost ov = iv[i as int].operands;
        let ghost base = all;
        let mut j: usize = 0;
        while j < operands.len()
            invariant
                j <= operands.len(),
                ov == super::instruction::operands_view(operands@),
                all == base + operands_frame_names(ov.take(j as int)),
                names_view(seen@) == distinct(all),
            decreases operands.len() - j,
        {
            assert(ov.take(j + 1).drop_last() =~= ov.take(j as int));
            let names = operand_frame_variable(&operands[j]);
            if names.len() > 0 {
                let ghost prev = all;
                proof {
                    all = prev.push(names@[0]@);
                }
                assert(all.drop_last() == prev);
                if !contains_name(&seen, &names[0]) {
                    let ghost before = seen@;
                    seen.push(names[0].clone());
                    assert(names_view(seen@) =~= names_view(before).push(names@[0]@));
                }
                assert(all =~= base + operands_frame_names(ov.take(j + 1)));
            } else {
                assert(base + operands_frame_names(ov.take(j + 1)) =~= all);
            }
            j = j + 1;
        }
        assert(ov.take(operands.len() as int) =~= ov);
        assert(all =~= frame_names(iv.take(i + 1)));
        i = i + 1;
    }
    assert(iv.take(function.len() as int) =~= iv);
    seen
}

/// How many of `names` are not among `params`.
fn count_not_parameters(names: &Vec<String>, params: &Vec<String>) -> (r: usize)
    ensures
        r == count_not_in(names_view(names@), names_view(params@)),
{
    let ghost nv = names_view(names@);
    let mut count: usize = 0;
    let mut i: usize = 0;
    while i < names.len()
        invariant
            i <= names.len(),
            nv == names_view(names@),
            count == count_not_in(nv.take(i as int), names_view(params@)),
            count <= i,
        decreases names.len() - i,
    {
        assert(nv.take(i + 1).drop_last() =~= nv.take(i as int));
        if !contains_name(params, &names[i]) {
            count = count + 1;
        }
        i = i + 1;
    }
    assert(nv.take(names.len() as int) =~= nv);
    count
}

/// The statements of a block translated in order.
fn translate_block(content: &Vec<Box<crate::ast::node::Node>>, counter: &mut usize) -> (r: Result<
    Vec<PASMInstruction>,
    String,
>)
    ensures
        gen_result(r, *final(counter), block_gen(block_view(content@), *old(counter))),
{
    proof {
        lemma_block_view_index(content@);
    }
    let ghost bv = block_view(content@);
    let ghost c0 = *counter;
    let mut instructions = no_instrs();
    let mut i: usize = 0;
    assert(bv.take(0) =~= Seq::<NodeView>::empty());
    while i < content.len()
        invariant
            i <= content.len(),
            bv == block_view(content@),
            bv.len() == content.len(),
            forall|k: int| 0 <= k < content.len() ==> bv[k] == (*content@[k])@,
            c0 == *old(counter),
            block_gen(bv.take(i as int), c0) == (Ok::<Seq<InstrView>, Seq<char>>(instrs_view(instructions@)), *counter),
        decreases content.len() - i,
    {
        let ghost t = bv.take(i + 1);
        assert(t.subrange(0, t.len() - 1) =~= bv.take(i as int));
        let n = &content[i];
        assert(t[t.len() - 1] == n@);
        match super::translation::inst_to_pasm(n, counter) {
            Ok(x) => append_instrs(&mut instructions, x),
            Err(e) => {
                proof {
                    lemma_block_gen_err(bv, i + 1, c0);
                }
                return Err(e);
            },
        }
        i = i + 1;
    }
    assert(bv.take(content.len() as int) =~= bv);
    Ok(instructions)
}

fn identifier_operand(name: &str) -> (r: OperandType)
    ensures
        r@ == quoted(name@),
{
    OperandType::Identifier { name: to_owned_string(name) }
}

/// One function in pseudo-assembly.
fn function_to_pasm(f: &Function, counter: &mut usize) -> (r: Result<PASMFunction, String>)
    ensures
        match function_pasm(f@, *old(counter)) {
            (Ok(i), c) => (r matches Ok(g) && g@ == (PFunctionView {
                name: f@.name,
                parameters: f@.parameters,
                instructions: i,
            }) && *final(counter) == c),
            (Err(e), c) => (r matches Err(m) && m@ == e && *final(counter) == c),
        },
{
    let ghost fv = f@;
    let is_main = string_equals(&f.name, "main");
    let mut label_name = str_chars("function_");
    extend_chars(&mut label_name, &string_chars(&f.name));
    extend_chars(&mut label_name, &str_chars("_label"));
    let mut instructions = no_instrs();
    push_instr(&mut instructions, PASMInstruction::new_label(string_from_chars(&label_name)));
    if !is_main {
        push_instr(&mut instructions, instr1("push", identifier_operand("'SBP")));
    }
    push_instr(
        &mut instructions,
        instr2("mov", identifier_operand("'SBP"), identifier_operand("'TSP")),
    );
    assert(instrs_view(instructions@) =~= prologue(fv.name));
    let inner = match translate_block(&f.content, counter) {
        Ok(i) => i,
        Err(e) => {
            return Err(e);
        },
    };
    let frame_variables = get_frame_variables(&inner);
    let stack = count_not_parameters(&frame_variables, &f.parameters);
    let ghost body = instrs_view(inner@);
    push_instr(
        &mut instructions,
        instr2("sub", identifier_operand("'TSP"), OperandType::Literal { value: stack as i32 }),
    );
    append_instrs(&mut instructions, inner);
    if is_main {
        push_instr(&mut instructions, instr0("halt"));
    }
    assert(instrs_view(instructions@) =~= prologue(fv.name) + seq![
        op(
            "sub"@,
            seq![quoted("'TSP"@), OperandView::Literal { value: stack_size(body, fv.parameters) as i32 }],
        ),
    ] + body + (if fv.name == "main"@ {
        seq![op("halt"@, seq![])]
    } else {
        seq![]
    }));
    Ok(PASMFunction { name: f.name.clone(), parameters: copy_names(&f.parameters), instructions })
}

impl PASMProgram {
    /// Translates every function of a program, in order; the names of labels
    /// and temporaries are numbered from 0 over the whole program.
    pub fn parse(ast: AST) -> (r: Result<PASMProgram, String>)
        ensures
            match program_pasm(ast.functions@, 0).0 {
                Ok(fs) => (r matches Ok(p) && p.functions@.map_values(|g: PASMFunction| g@) == fs),
                Err(e) => (r matches Err(m) && m@ == e),
            },
    {
        let mut counter: usize = 0;
        let mut functions: Vec<PASMFunction> = Vec::new();
        let ghost table = ast.functions@;
        let mut i: usize = 0;
        assert(functions@.map_values(|g: PASMFunction| g@) =~= seq![]);
        while i < ast.functions.len()
            invariant
                i <= table.len(),
                table == ast.functions@,
                program_pasm(table.take(i as int), 0) == (Ok::<Seq<PFunctionView>, Seq<char>>(
                    functions@.map_values(|g: PASMFunction| g@),
                ), counter),
            decreases table.len() - i,
        {
            assert(table.take(i + 1).drop_last() =~= table.take(i as int));
            let f = ast.functions.at(i);
            match function_to_pasm(f, &mut counter) {
                Ok(g) => {
                    let ghost before = functions@;
                    functions.push(g);
                    assert(functions@.map_values(|g: PASMFunction| g@) =~= before.map_values(
                        |g: PASMFunction| g@,
                    ).push(g@));
                },
                Err(e) => {
                    proof {
                        lemma_program_pasm_err(table, i + 1);
                    }
                    return Err(e);
                },
            }
            i = i + 1;
        }
        assert(table.take(table.len() as int) =~= table);
        Ok(PASMProgram { functions })
    }

    /// The text of the program, as [`listing`] gives it for its functions in order.
    pub fn to_string(&self) -> (r: String)
        ensures
            r@ == program_listing(self.functions@.map_values(|g: PASMFunction| g@.instructions)),
    {
        let ghost fs = self.functions@.map_values(|g: PASMFunction| g@.instructions);
        let mut out: Vec<char> = Vec::new();
        let mut i: usize = 0;
        while i < self.functions.len()
            invariant
                i <= self.functions.len(),
                fs == self.functions@.map_values(|g: PASMFunction| g@.instructions),
                out@ == program_listing(fs.take(i as int)),
            decreases self.functions.len() - i,
        {
            assert(fs.take(i + 1).drop_last() =~= fs.take(i as int));
            push_listing(&mut out, &self.functions[i].instructions);
            i = i + 1;
        }
        assert(fs.take(self.functions.len() as int) =~= fs);
        string_from_chars(&out)
    }
}

impl PASMAllocatedProgram {
    /// The text of the program, as [`listing`] gives it for its functions in order.
    pub fn to_string(&self) -> (r: String)
        ensures
            r@ == program_listing(self.functions@.map_values(|g: AllocatedFunction| instrs_view(g.instructions@))),
    {
        let ghost fs = self.functions@.map_values(|g: AllocatedFunction| instrs_view(g.instructions@));
        let mut out: Vec<char> = Vec::new();
        let mut i: usize = 0;
        while i < self.functions.len()
            invariant
                i <= self.functions.len(),
                fs == self.functions@.map_values(|g: AllocatedFunction| instrs_view(g.instructions@)),
                out@ == program_listing(fs.take(i as int)),
            decreases self.functions.len() - i,
        {
            assert(fs.take(i + 1).drop_last() =~= fs.take(i as int));
            push_listing(&mut out, &self.functions[i].instructions);
            i = i + 1;
        }
        assert(fs.take(self.functions.len() as int) =~= fs);
        string_from_chars(&out)
    }
}

/// The listings of functions, one after the other.
pub open spec fn program_listing(fs: Seq<Seq<InstrView>>) -> Seq<char>
    decreases fs.len(),
{
    if fs.len() == 0 {
        seq![]
    } else {
        program_listing(fs.drop_last()) + listing(fs.last())
    }
}

pub proof fn lemma_program_pasm_err(fs: Seq<FunctionView>, k: int)
    requires
        0 <= k <= fs.len(),
        program_pasm(fs.take(k), 0).0 is Err,
    ensures
        program_pasm(fs, 0) == program_pasm(fs.take(k), 0),
    decreases fs.len(),
{
    if k < fs.len() {
        assert(fs.drop_last().take(k) =~= fs.take(k));
        lemma_program_pasm_err(fs.drop_last(), k);
    } else {
        assert(fs.take(k) =~= fs);
    }
}

fn copy_names(v: &Vec<String>) -> (r: Vec<String>)
    ensures
        names_view(r@) == names_view(v@),
{
    let mut out: Vec<String> = Vec::new();
    let mut i: usize = 0;
    while i < v.len()
        invariant
            i <= v.len(),
            names_view(out@) == names_view(v@).take(i as int),
        decreases v.len() - i,
    {
        let ghost before = out@;
        let c = v[i].clone();
        out.push(c);
        assert(names_view(out@) =~= names_view(before).push(c@));
        assert(names_view(v@).take(i + 1) =~= names_view(v@).take(i as int).push(v@[i as int]@));
        i = i + 1;
    }
    assert(names_view(v@).take(v.len() as int) =~= names_view(v@));
    out
}

} // verus!
